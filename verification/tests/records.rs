use mrt_rs::addr::IpAddress;
use mrt_rs::addr::Ipv4Address;
use mrt_rs::addr::Ipv6Address;
use mrt_rs::bgp::BGP;
use mrt_rs::bgp4mp::BGP4MP;
use mrt_rs::bgp4plus::BGP4PLUS;
use mrt_rs::error::DecodeError;
use mrt_rs::ospf::OSPFv2;
use mrt_rs::ospf::OSPFv3;
use mrt_rs::read;
use mrt_rs::rip::RIP;
use mrt_rs::rip::RIPNG;
use mrt_rs::stream::ByteStream;
use mrt_rs::tabledump::PeerEntry;
use mrt_rs::tabledump::RIBEntry;
use mrt_rs::tabledump::RIBEntryAddPath;
use mrt_rs::tabledump::PEER_INDEX_TABLE;
use mrt_rs::tabledump::RIB_AFI;
use mrt_rs::tabledump::RIB_GENERIC;
use mrt_rs::tabledump::TABLE_DUMP;
use mrt_rs::tabledump::TABLE_DUMP_V2;
use mrt_rs::Header;
use mrt_rs::Record;
use mrt_rs::AFI;

fn header(timestamp: u32, record_type: u16, sub_type: u16, length: u32) -> Vec<u8> {
    let mut out = Vec::new();
    out.extend_from_slice(&timestamp.to_be_bytes());
    out.extend_from_slice(&record_type.to_be_bytes());
    out.extend_from_slice(&sub_type.to_be_bytes());
    out.extend_from_slice(&length.to_be_bytes());
    out
}

fn record(record_type: u16, sub_type: u16, payload: &[u8]) -> Vec<u8> {
    let mut out = header(7, record_type, sub_type, payload.len() as u32);
    out.extend_from_slice(payload);
    out
}

fn decode_one(bytes: Vec<u8>) -> Result<(Header, Record, usize), DecodeError> {
    let mut stream = ByteStream::new(bytes);
    match read(&mut stream)? {
        Some((h, r)) => Ok((h, r, stream.offset())),
        None => panic!("the stream held no record"),
    }
}

const V6_A: u128 = 0x2001_0db8_0000_0000_0000_0000_0000_0001;
const V6_B: u128 = 0x2001_0db8_0000_0000_0000_0000_0000_0002;

#[test]
fn afi_codes_and_sizes() {
    assert_eq!(AFI::from(1), Ok(AFI::IPV4));
    assert_eq!(AFI::from(2), Ok(AFI::IPV6));
    assert_eq!(AFI::from(0), Err(DecodeError::InvalidAfi(0)));
    assert_eq!(AFI::from(3), Err(DecodeError::InvalidAfi(3)));
    assert_eq!(AFI::from(65535), Err(DecodeError::InvalidAfi(65535)));
    assert_eq!(AFI::IPV4.size(), 4);
    assert_eq!(AFI::IPV6.size(), 16);
}

#[test]
fn stream_reads_big_endian() {
    let mut bytes = vec![0x12, 0x34, 0x56, 0x78, 0x9A, 0xBC, 0xDE];
    bytes.extend_from_slice(&V6_A.to_be_bytes());
    let mut stream = ByteStream::new(bytes);
    assert_eq!(stream.read_u8(), Ok(0x12));
    assert_eq!(stream.read_u16(), Ok(0x3456));
    assert_eq!(stream.read_u32(), Ok(0x789A_BCDE));
    assert_eq!(stream.offset(), 7);
    assert_eq!(stream.read_u128(), Ok(V6_A));
    assert!(stream.at_end());
    assert_eq!(stream.read_u8(), Err(DecodeError::Truncated));
    assert_eq!(stream.offset(), 23);
}

#[test]
fn stream_failed_read_takes_what_is_left() {
    let mut stream = ByteStream::new(vec![1, 2, 3]);
    assert_eq!(stream.read_u32(), Err(DecodeError::Truncated));
    assert_eq!(stream.offset(), 3);
    assert!(stream.at_end());
    assert_eq!(stream.read_bytes(0), Ok(vec![]));
    assert_eq!(stream.read_u8(), Err(DecodeError::Truncated));
    let mut stream = ByteStream::new(vec![1, 2, 3]);
    assert_eq!(stream.read_bytes(4), Err(DecodeError::Truncated));
    assert_eq!(stream.offset(), 3);
    let mut stream = ByteStream::new(vec![1, 2, 3]);
    assert_eq!(stream.read_bytes(3), Ok(vec![1, 2, 3]));
    assert_eq!(stream.read_u16(), Err(DecodeError::Truncated));
    assert_eq!(stream.offset(), 3);
    let mut stream = ByteStream::new(vec![1; 15]);
    assert_eq!(stream.read_u8(), Ok(1));
    assert_eq!(stream.read_u128(), Err(DecodeError::Truncated));
    assert_eq!(stream.offset(), 15);
    let mut stream = ByteStream::new(vec![7]);
    assert_eq!(stream.read_u16(), Err(DecodeError::Truncated));
    assert_eq!(stream.offset(), 1);
    let mut stream = ByteStream::new(vec![b'a', b'b']);
    assert_eq!(stream.read_until_nul(), Err(DecodeError::Truncated));
    assert_eq!(stream.offset(), 2);
}

#[test]
fn stream_reads_until_nul() {
    let mut stream = ByteStream::new(vec![b'a', b'b', 0, b'c']);
    assert_eq!(stream.read_until_nul(), Ok(vec![b'a', b'b']));
    assert_eq!(stream.offset(), 3);
    assert_eq!(stream.read_until_nul(), Err(DecodeError::Truncated));
    let mut empty_name = ByteStream::new(vec![0]);
    assert_eq!(empty_name.read_until_nul(), Ok(vec![]));
    assert!(empty_name.at_end());
}

#[test]
fn read_be_u32_takes_four_bytes() {
    let data = [0u8, 0, 165, 233, 9, 9];
    let mut rest: &[u8] = &data;
    assert_eq!(mrt_rs::tabledump::read_be_u32(&mut rest), 42473);
    assert_eq!(rest, &[9u8, 9][..]);
}

#[test]
fn empty_stream_is_clean_end() {
    let mut stream = ByteStream::new(vec![]);
    assert_eq!(read(&mut stream), Ok(None));
    assert_eq!(stream.offset(), 0);
}

#[test]
fn read_until_end_of_stream() {
    let mut bytes = record(0, 0, &[]);
    bytes.extend_from_slice(&record(32, 0, &[1, 2, 3]));
    let mut stream = ByteStream::new(bytes);
    let first = read(&mut stream).unwrap().unwrap();
    assert_eq!(first.1, Record::NULL);
    let second = read(&mut stream).unwrap().unwrap();
    assert_eq!(second.1, Record::ISIS(vec![1, 2, 3]));
    assert_eq!(read(&mut stream), Ok(None));
    assert_eq!(read(&mut stream), Ok(None));
}

#[test]
fn truncated_header_field_is_fatal() {
    let mut stream = ByteStream::new(vec![0, 0]);
    assert_eq!(read(&mut stream), Err(DecodeError::Truncated));
}

#[test]
fn truncated_header_after_first_field_is_fatal() {
    let mut bytes = header(1, 16, 1, 20);
    bytes.truncate(11);
    let mut stream = ByteStream::new(bytes);
    assert_eq!(read(&mut stream), Err(DecodeError::Truncated));
    let mut one = ByteStream::new(vec![9]);
    assert_eq!(read(&mut one), Err(DecodeError::Truncated));
}

#[test]
fn undefined_record_type_is_named() {
    let mut stream = ByteStream::new(header(0, 99, 0, 0));
    assert_eq!(read(&mut stream), Err(DecodeError::UnknownRecordType(99)));
    for t in [14u16, 15, 18, 31, 34, 47, 50, 65535] {
        let mut stream = ByteStream::new(header(0, t, 0, 0));
        assert_eq!(read(&mut stream), Err(DecodeError::UnknownRecordType(t)));
    }
}

#[test]
fn header_parse_reads_twelve_bytes() {
    let mut bytes = header(0x0102_0304, 17, 4, 0x0A0B_0C0D);
    bytes.extend_from_slice(&[0, 0, 0, 5]);
    let mut stream = ByteStream::new(bytes);
    let h = Header::parse(&mut stream).unwrap().unwrap();
    assert_eq!(
        h,
        Header { timestamp: 0x0102_0304, extended: 0, record_type: 17, sub_type: 4, length: 0x0A0B_0C0D }
    );
    assert_eq!(stream.offset(), 12);
}

#[test]
fn records_without_payload() {
    let cases = [
        (0u16, Record::NULL),
        (1, Record::START),
        (2, Record::DIE),
        (3, Record::I_AM_DEAD),
        (4, Record::PEER_DOWN),
        (7, Record::IDRP),
    ];
    for (t, want) in cases {
        let (h, r, used) = decode_one(header(5, t, 9, 0)).unwrap();
        assert_eq!(r, want);
        assert_eq!(h, Header { timestamp: 5, extended: 0, record_type: t, sub_type: 9, length: 0 });
        assert_eq!(used, 12);
    }
}

fn bgp4mp_message_payload(message: &[u8]) -> Vec<u8> {
    let mut p = Vec::new();
    p.extend_from_slice(&100u16.to_be_bytes());
    p.extend_from_slice(&200u16.to_be_bytes());
    p.extend_from_slice(&0u16.to_be_bytes());
    p.extend_from_slice(&1u16.to_be_bytes());
    p.extend_from_slice(&[10, 0, 0, 1]);
    p.extend_from_slice(&[10, 0, 0, 2]);
    p.extend_from_slice(message);
    p
}

#[test]
fn bgp4mp_message_scenario() {
    let mut bytes = header(0, 16, 1, 20);
    bytes.extend_from_slice(&bgp4mp_message_payload(&[0xFF; 4]));
    let (h, r, used) = decode_one(bytes).unwrap();
    assert_eq!(h, Header { timestamp: 0, extended: 0, record_type: 16, sub_type: 1, length: 20 });
    assert_eq!(
        r,
        Record::BGP4MP(BGP4MP::MESSAGE(mrt_rs::bgp4mp::MESSAGE {
            peer_as: 100,
            local_as: 200,
            interface: 0,
            peer_address: IpAddress::V4(Ipv4Address(0x0A00_0001)),
            local_address: IpAddress::V4(Ipv4Address(0x0A00_0002)),
            message: vec![0xFF; 4],
        }))
    );
    assert_eq!(used - 12, 20);
}

#[test]
fn bgp4mp_message_of_two_bytes() {
    let mut bytes = header(0, 16, 1, 18);
    bytes.extend_from_slice(&bgp4mp_message_payload(&[0xFF; 2]));
    bytes.extend_from_slice(&[0xEE, 0xEE]);
    let (_, r, used) = decode_one(bytes).unwrap();
    match r {
        Record::BGP4MP(BGP4MP::MESSAGE(m)) => {
            assert_eq!(m.peer_as, 100);
            assert_eq!(m.local_as, 200);
            assert_eq!(m.interface, 0);
            assert_eq!(m.peer_address, IpAddress::V4(Ipv4Address(0x0A00_0001)));
            assert_eq!(m.local_address, IpAddress::V4(Ipv4Address(0x0A00_0002)));
            assert_eq!(m.message, vec![0xFF; 2]);
        }
        other => panic!("{:?}", other),
    }
    assert_eq!(used, 12 + 18);
}

#[test]
fn bgp4mp_message_length_is_derived() {
    for extra in [0usize, 1, 19, 300] {
        let message = vec![0xAB; extra];
        let bytes = record(16, 1, &bgp4mp_message_payload(&message));
        let (h, r, used) = decode_one(bytes).unwrap();
        assert_eq!(h.length as usize, 16 + extra);
        match r {
            Record::BGP4MP(BGP4MP::MESSAGE(m)) => assert_eq!(m.message.len(), h.length as usize - 8 - 2 * 4),
            other => panic!("{:?}", other),
        }
        assert_eq!(used, 12 + 16 + extra);
    }
}

#[test]
fn bgp4mp_message_length_too_small_is_error() {
    let mut bytes = header(0, 16, 1, 15);
    bytes.extend_from_slice(&bgp4mp_message_payload(&[]));
    assert_eq!(decode_one(bytes), Err(DecodeError::InvalidLength(15)));
    let mut bytes = header(0, 16, 4, 0);
    bytes.extend_from_slice(&bgp4mp_as4_payload(2, &[]));
    assert_eq!(decode_one(bytes), Err(DecodeError::InvalidLength(0)));
}

#[test]
fn bgp4mp_message_truncated() {
    let mut bytes = header(0, 16, 1, 20);
    bytes.extend_from_slice(&bgp4mp_message_payload(&[0xFF; 3]));
    assert_eq!(decode_one(bytes), Err(DecodeError::Truncated));
    let mut bytes = header(0, 16, 1, 20);
    bytes.extend_from_slice(&[0, 100, 0, 200, 0]);
    assert_eq!(decode_one(bytes), Err(DecodeError::Truncated));
}

#[test]
fn bgp4mp_invalid_afi() {
    let mut p = bgp4mp_message_payload(&[]);
    p[7] = 3;
    assert_eq!(decode_one(record(16, 1, &p)), Err(DecodeError::InvalidAfi(3)));
    let mut p = bgp4mp_message_payload(&[]);
    p[6] = 1;
    p.truncate(8);
    assert_eq!(decode_one(record(16, 0, &p)), Err(DecodeError::InvalidAfi(257)));
}

fn bgp4mp_as4_payload(afi: u16, tail: &[u8]) -> Vec<u8> {
    let mut p = Vec::new();
    p.extend_from_slice(&4_200_000_001u32.to_be_bytes());
    p.extend_from_slice(&65_536u32.to_be_bytes());
    p.extend_from_slice(&3u16.to_be_bytes());
    p.extend_from_slice(&afi.to_be_bytes());
    if afi == 1 {
        p.extend_from_slice(&[192, 0, 2, 1]);
        p.extend_from_slice(&[192, 0, 2, 2]);
    } else {
        p.extend_from_slice(&V6_A.to_be_bytes());
        p.extend_from_slice(&V6_B.to_be_bytes());
    }
    p.extend_from_slice(tail);
    p
}

#[test]
fn bgp4mp_message_as4_ipv6() {
    let bytes = record(16, 4, &bgp4mp_as4_payload(2, &[1, 2, 3, 4, 5]));
    let (h, r, used) = decode_one(bytes).unwrap();
    assert_eq!(h.length, 12 + 32 + 5);
    assert_eq!(
        r,
        Record::BGP4MP(BGP4MP::MESSAGE_AS4(mrt_rs::bgp4mp::MESSAGE_AS4 {
            peer_as: 4_200_000_001,
            local_as: 65_536,
            interface: 3,
            peer_address: IpAddress::V6(Ipv6Address(V6_A)),
            local_address: IpAddress::V6(Ipv6Address(V6_B)),
            message: vec![1, 2, 3, 4, 5],
        }))
    );
    assert_eq!(used, 12 + 49);
}

#[test]
fn bgp4mp_subtypes_share_layouts() {
    for (sub, as4) in [
        (1u16, false),
        (4, true),
        (6, false),
        (7, true),
        (8, false),
        (9, true),
        (10, false),
        (11, true),
    ] {
        let payload = if as4 { bgp4mp_as4_payload(1, &[7]) } else { bgp4mp_message_payload(&[7]) };
        let (_, r, _) = decode_one(record(16, sub, &payload)).unwrap();
        let b = match r {
            Record::BGP4MP(b) => b,
            other => panic!("{:?}", other),
        };
        let message = match (sub, b) {
            (1, BGP4MP::MESSAGE(m)) => m.message,
            (4, BGP4MP::MESSAGE_AS4(m)) => m.message,
            (6, BGP4MP::MESSAGE_LOCAL(m)) => m.message,
            (7, BGP4MP::MESSAGE_AS4_LOCAL(m)) => m.message,
            (8, BGP4MP::MESSAGE_ADDPATH(m)) => m.message,
            (9, BGP4MP::MESSAGE_AS4_ADDPATH(m)) => m.message,
            (10, BGP4MP::MESSAGE_LOCAL_ADDPATH(m)) => m.message,
            (11, BGP4MP::MESSAGE_AS4_LOCAL_ADDPATH(m)) => m.message,
            (_, other) => panic!("{:?}", other),
        };
        assert_eq!(message, vec![7]);
    }
}

#[test]
fn bgp4mp_state_changes() {
    let mut p = bgp4mp_message_payload(&[]);
    p.extend_from_slice(&[0, 3, 0, 6]);
    let (_, r, used) = decode_one(record(16, 0, &p)).unwrap();
    assert_eq!(
        r,
        Record::BGP4MP(BGP4MP::STATE_CHANGE(mrt_rs::bgp4mp::STATE_CHANGE {
            peer_as: 100,
            local_as: 200,
            interface: 0,
            peer_address: IpAddress::V4(Ipv4Address(0x0A00_0001)),
            local_address: IpAddress::V4(Ipv4Address(0x0A00_0002)),
            old_state: 3,
            new_state: 6,
        }))
    );
    assert_eq!(used, 12 + 20);
    let p = bgp4mp_as4_payload(2, &[0, 1, 0, 2]);
    let (_, r, used) = decode_one(record(17 - 1, 5, &p)).unwrap();
    assert_eq!(
        r,
        Record::BGP4MP(BGP4MP::STATE_CHANGE_AS4(mrt_rs::bgp4mp::STATE_CHANGE_AS4 {
            peer_as: 4_200_000_001,
            local_as: 65_536,
            interface: 3,
            peer_address: IpAddress::V6(Ipv6Address(V6_A)),
            local_address: IpAddress::V6(Ipv6Address(V6_B)),
            old_state: 1,
            new_state: 2,
        }))
    );
    assert_eq!(used, 12 + 48);
}

#[test]
fn bgp4mp_snapshot() {
    let p = [0u8, 9, b'r', b'i', b'b', 0];
    let (_, r, used) = decode_one(record(16, 3, &p)).unwrap();
    assert_eq!(
        r,
        Record::BGP4MP(BGP4MP::SNAPSHOT(mrt_rs::bgp4mp::SNAPSHOT { view_number: 9, filename: b"rib".to_vec() }))
    );
    assert_eq!(used, 18);
    assert_eq!(decode_one(record(16, 3, &[0, 9, b'r'])), Err(DecodeError::Truncated));
}

fn entry_payload(hop_len: u8, prefix_length: u8) -> Vec<u8> {
    let mut p = bgp4mp_message_payload(&[]);
    p.extend_from_slice(&[0, 1]);
    p.extend_from_slice(&[0, 2]);
    p.extend_from_slice(&[0, 0, 0, 77]);
    p.extend_from_slice(&[0, 1]);
    p.push(1);
    p.push(hop_len);
    for i in 0..hop_len {
        p.push(i + 1);
    }
    p.push(prefix_length);
    for i in 0..(prefix_length as usize + 7) / 8 {
        p.push(0xA0 + i as u8);
    }
    p.extend_from_slice(&[0, 3, 9, 8, 7]);
    p
}

#[test]
fn bgp4mp_entry() {
    let (_, r, used) = decode_one(record(16, 2, &entry_payload(4, 17))).unwrap();
    assert_eq!(
        r,
        Record::BGP4MP(BGP4MP::ENTRY(mrt_rs::bgp4mp::ENTRY {
            peer_as: 100,
            local_as: 200,
            interface: 0,
            peer_address: IpAddress::V4(Ipv4Address(0x0A00_0001)),
            local_address: IpAddress::V4(Ipv4Address(0x0A00_0002)),
            view_number: 1,
            status: 2,
            time_last_change: 77,
            next_hop: IpAddress::V4(Ipv4Address(0x0102_0304)),
            afi: 1,
            safi: 1,
            prefix_length: 17,
            prefix: vec![0xA0, 0xA1, 0xA2],
            attributes: vec![9, 8, 7],
        }))
    );
    assert_eq!(used, 12 + 16 + 12 + 4 + 1 + 3 + 2 + 3);
}

#[test]
fn bgp4mp_entry_ipv6_next_hop() {
    let (_, r, _) = decode_one(record(16, 2, &entry_payload(16, 0))).unwrap();
    match r {
        Record::BGP4MP(BGP4MP::ENTRY(e)) => {
            assert_eq!(e.next_hop, IpAddress::V6(Ipv6Address(0x0102_0304_0506_0708_090A_0B0C_0D0E_0F10)));
            assert_eq!(e.prefix, Vec::<u8>::new());
        }
        other => panic!("{:?}", other),
    }
}

#[test]
fn bgp4mp_entry_invalid_next_hop_length() {
    assert_eq!(
        decode_one(record(16, 2, &entry_payload(5, 8))),
        Err(DecodeError::InvalidNextHopLength(5))
    );
    assert_eq!(
        decode_one(record(16, 2, &entry_payload(0, 8))),
        Err(DecodeError::InvalidNextHopLength(0))
    );
}

#[test]
fn bgp4mp_entry_longest_prefix() {
    let (_, r, _) = decode_one(record(16, 2, &entry_payload(4, 255))).unwrap();
    match r {
        Record::BGP4MP(BGP4MP::ENTRY(e)) => assert_eq!(e.prefix.len(), 32),
        other => panic!("{:?}", other),
    }
}

#[test]
fn bgp4mp_unknown_subtype() {
    assert_eq!(decode_one(record(16, 12, &[])), Err(DecodeError::UnknownSubtype(12)));
    assert_eq!(decode_one(record(5, 8, &[])), Err(DecodeError::UnknownSubtype(8)));
    assert_eq!(decode_one(record(9, 8, &[])), Err(DecodeError::UnknownSubtype(8)));
    assert_eq!(decode_one(record(10, 300, &[])), Err(DecodeError::UnknownSubtype(300)));
}

#[test]
fn extended_timestamp_takes_four_more_bytes() {
    let payload = bgp4mp_message_payload(&[1, 2]);
    for (plain, et) in [(16u16, 17u16)] {
        let plain_bytes = record(plain, 1, &payload);
        let (h, _, used) = decode_one(plain_bytes).unwrap();
        assert_eq!(h.extended, 0);
        assert_eq!(used, 12 + payload.len());
        let mut et_bytes = header(7, et, 1, payload.len() as u32);
        et_bytes.extend_from_slice(&123_456u32.to_be_bytes());
        et_bytes.extend_from_slice(&payload);
        let (h, r, used) = decode_one(et_bytes).unwrap();
        assert_eq!(h.extended, 123_456);
        assert_eq!(used, 16 + payload.len());
        assert!(matches!(r, Record::BGP4MP_ET(BGP4MP::MESSAGE(_))));
    }
}

#[test]
fn extended_timestamp_of_isis_and_ospfv3() {
    let mut bytes = header(1, 33, 0, 2);
    bytes.extend_from_slice(&[0, 0, 0, 9, 0xAA, 0xBB]);
    let (h, r, used) = decode_one(bytes).unwrap();
    assert_eq!(h.extended, 9);
    assert_eq!(r, Record::ISIS_ET(vec![0xAA, 0xBB]));
    assert_eq!(used, 18);
    let mut bytes = header(1, 49, 0, 9);
    bytes.extend_from_slice(&[0, 0, 1, 0]);
    bytes.extend_from_slice(&[0, 1, 1, 1, 1, 1, 2, 2, 2, 2, 0x5A]);
    let (h, r, used) = decode_one(bytes).unwrap();
    assert_eq!(h.extended, 256);
    assert_eq!(
        r,
        Record::OSPFv3_ET(OSPFv3 {
            remote: IpAddress::V4(Ipv4Address(0x0101_0101)),
            local: IpAddress::V4(Ipv4Address(0x0202_0202)),
            message: vec![0x5A],
        })
    );
    assert_eq!(used, 16 + 2 + 9);
}

#[test]
fn extended_timestamp_truncated() {
    let mut bytes = header(1, 17, 1, 0);
    bytes.extend_from_slice(&[0, 0, 1]);
    assert_eq!(decode_one(bytes), Err(DecodeError::Truncated));
}

#[test]
fn legacy_bgp_message() {
    let mut p = vec![0, 10, 1, 2, 3, 4, 0, 20, 5, 6, 7, 8];
    p.extend_from_slice(&[0xDE, 0xAD]);
    for (sub, pick) in [(1u16, 0), (5, 1), (6, 2), (7, 3)] {
        let (h, r, used) = decode_one(record(5, sub, &p)).unwrap();
        assert_eq!(h.length, 14);
        let m = match (pick, r) {
            (0, Record::BGP(BGP::UPDATE(m))) => m,
            (1, Record::BGP(BGP::OPEN(m))) => m,
            (2, Record::BGP(BGP::NOTIFY(m))) => m,
            (3, Record::BGP(BGP::KEEPALIVE(m))) => m,
            (_, other) => panic!("{:?}", other),
        };
        assert_eq!(
            m,
            mrt_rs::bgp::MESSAGE {
                peer_as: 10,
                peer_ip: Ipv4Address(0x0102_0304),
                local_as: 20,
                local_ip: Ipv4Address(0x0506_0708),
                message: vec![0xDE, 0xAD],
            }
        );
        assert_eq!(used, 26);
    }
}

#[test]
fn legacy_bgp_message_short_length() {
    let p = vec![0, 10, 1, 2, 3, 4, 0, 20, 5, 6, 7, 8];
    let mut bytes = header(0, 5, 1, 11);
    bytes.extend_from_slice(&p);
    assert_eq!(decode_one(bytes), Err(DecodeError::InvalidLength(11)));
    let mut bytes = header(0, 5, 1, 11);
    bytes.extend_from_slice(&p[..11]);
    assert_eq!(decode_one(bytes), Err(DecodeError::Truncated));
}

#[test]
fn legacy_bgp_other_subtypes() {
    assert_eq!(decode_one(record(5, 0, &[])).unwrap().1, Record::BGP(BGP::NULL));
    assert_eq!(decode_one(record(5, 2, &[])).unwrap().1, Record::BGP(BGP::PREF_UPDATE));
    let (_, r, used) = decode_one(record(5, 3, &[0, 10, 1, 2, 3, 4, 0, 1, 0, 2])).unwrap();
    assert_eq!(
        r,
        Record::BGP(BGP::STATE_CHANGE(mrt_rs::bgp::STATE_CHANGE {
            peer_as: 10,
            peer_ip: Ipv4Address(0x0102_0304),
            old_state: 1,
            new_state: 2,
        }))
    );
    assert_eq!(used, 22);
    let (_, r, used) = decode_one(record(5, 4, &[1, 0, b'x', 0, 0xFF])).unwrap();
    assert_eq!(r, Record::BGP(BGP::SYNC(mrt_rs::bgp::SYNC { view_number: 256, filename: vec![b'x'] })));
    assert_eq!(used, 16);
}

#[test]
fn legacy_bgp4plus_message() {
    let mut p = vec![0, 10];
    p.extend_from_slice(&V6_A.to_be_bytes());
    p.extend_from_slice(&[0, 20]);
    p.extend_from_slice(&V6_B.to_be_bytes());
    p.extend_from_slice(&[1, 2, 3]);
    let (h, r, used) = decode_one(record(9, 1, &p)).unwrap();
    assert_eq!(h.length, 39);
    assert_eq!(
        r,
        Record::BGP4PLUS(BGP4PLUS::UPDATE(mrt_rs::bgp4plus::MESSAGE {
            peer_as: 10,
            peer_ip: Ipv6Address(V6_A),
            local_as: 20,
            local_ip: Ipv6Address(V6_B),
            message: vec![1, 2, 3],
        }))
    );
    assert_eq!(used, 12 + 39);
    let (_, r, _) = decode_one(record(10, 7, &p)).unwrap();
    assert!(matches!(r, Record::BGP4PLUS_01(BGP4PLUS::KEEPALIVE(_))));
    let mut bytes = header(0, 9, 1, 35);
    bytes.extend_from_slice(&p);
    assert_eq!(decode_one(bytes), Err(DecodeError::InvalidLength(35)));
}

#[test]
fn legacy_bgp4plus_other_subtypes() {
    assert_eq!(decode_one(record(9, 0, &[])).unwrap().1, Record::BGP4PLUS(BGP4PLUS::NULL));
    assert_eq!(decode_one(record(10, 2, &[])).unwrap().1, Record::BGP4PLUS_01(BGP4PLUS::PREF_UPDATE));
    let mut p = vec![0, 10];
    p.extend_from_slice(&V6_A.to_be_bytes());
    p.extend_from_slice(&[0, 1, 0, 2]);
    let (_, r, used) = decode_one(record(9, 3, &p)).unwrap();
    assert_eq!(
        r,
        Record::BGP4PLUS(BGP4PLUS::STATE_CHANGE(mrt_rs::bgp4plus::STATE_CHANGE {
            peer_as: 10,
            peer_ip: Ipv6Address(V6_A),
            old_state: 1,
            new_state: 2,
        }))
    );
    assert_eq!(used, 12 + 22);
    let (_, r, _) = decode_one(record(9, 4, &[0, 1, 0])).unwrap();
    assert_eq!(r, Record::BGP4PLUS(BGP4PLUS::SYNC(mrt_rs::bgp4plus::SYNC { view_number: 1, filename: vec![] })));
}

#[test]
fn rip_and_ospfv2() {
    let p = [1u8, 1, 1, 1, 2, 2, 2, 2, 0xC0, 0xC1];
    let (_, r, used) = decode_one(record(6, 0, &p)).unwrap();
    assert_eq!(
        r,
        Record::RIP(RIP {
            remote: Ipv4Address(0x0101_0101),
            local: Ipv4Address(0x0202_0202),
            message: vec![0xC0, 0xC1],
        })
    );
    assert_eq!(used, 22);
    let (_, r, _) = decode_one(record(11, 0, &p[..8])).unwrap();
    assert_eq!(
        r,
        Record::OSPFv2(OSPFv2 {
            remote: Ipv4Address(0x0101_0101),
            local: Ipv4Address(0x0202_0202),
            message: vec![],
        })
    );
    assert_eq!(decode_one(record(6, 0, &p[..7])), Err(DecodeError::InvalidLength(7)));
    assert_eq!(decode_one(record(11, 0, &[])), Err(DecodeError::InvalidLength(0)));
    let mut bytes = header(0, 11, 0, 9);
    bytes.extend_from_slice(&p[..8]);
    assert_eq!(decode_one(bytes), Err(DecodeError::Truncated));
}

#[test]
fn ripng() {
    let mut p = Vec::new();
    p.extend_from_slice(&V6_A.to_be_bytes());
    p.extend_from_slice(&V6_B.to_be_bytes());
    p.push(0x42);
    let (_, r, used) = decode_one(record(8, 0, &p)).unwrap();
    assert_eq!(
        r,
        Record::RIPNG(RIPNG { remote: Ipv6Address(V6_A), local: Ipv6Address(V6_B), message: vec![0x42] })
    );
    assert_eq!(used, 12 + 33);
    assert_eq!(decode_one(record(8, 0, &p[..31])), Err(DecodeError::InvalidLength(31)));
}

#[test]
fn ospfv3() {
    let mut p = vec![0, 2];
    p.extend_from_slice(&V6_A.to_be_bytes());
    p.extend_from_slice(&V6_B.to_be_bytes());
    p.extend_from_slice(&[1, 2, 3]);
    let mut bytes = header(0, 48, 0, 35);
    bytes.extend_from_slice(&p);
    let (_, r, used) = decode_one(bytes).unwrap();
    assert_eq!(
        r,
        Record::OSPFv3(OSPFv3 {
            remote: IpAddress::V6(Ipv6Address(V6_A)),
            local: IpAddress::V6(Ipv6Address(V6_B)),
            message: vec![1, 2, 3],
        })
    );
    assert_eq!(used, 12 + 2 + 35);
    let mut bytes = header(0, 48, 0, 31);
    bytes.extend_from_slice(&p);
    assert_eq!(decode_one(bytes), Err(DecodeError::InvalidLength(31)));
    let mut bytes = header(0, 48, 0, 8);
    bytes.extend_from_slice(&[0, 9]);
    assert_eq!(decode_one(bytes), Err(DecodeError::InvalidAfi(9)));
}

#[test]
fn isis_is_opaque() {
    let (_, r, used) = decode_one(record(32, 5, &[9, 9, 9, 9])).unwrap();
    assert_eq!(r, Record::ISIS(vec![9, 9, 9, 9]));
    assert_eq!(used, 16);
    let (_, r, _) = decode_one(record(32, 0, &[])).unwrap();
    assert_eq!(r, Record::ISIS(vec![]));
    let mut bytes = header(0, 32, 0, 3);
    bytes.extend_from_slice(&[1, 2]);
    assert_eq!(decode_one(bytes), Err(DecodeError::Truncated));
}

#[test]
fn table_dump_ipv4() {
    let p = [0u8, 1, 0, 2, 10, 1, 0, 0, 16, 1, 0, 0, 0, 60, 192, 0, 2, 9, 0xFD, 0xE8, 0, 2, 0x40, 0x01];
    let mut bytes = header(0, 12, 1, 0);
    bytes.extend_from_slice(&p);
    let (_, r, used) = decode_one(bytes).unwrap();
    assert_eq!(
        r,
        Record::TABLE_DUMP(TABLE_DUMP {
            view_number: 1,
            sequence_number: 2,
            prefix: IpAddress::V4(Ipv4Address(0x0A01_0000)),
            prefix_length: 16,
            status: 1,
            originated_time: 60,
            peer_address: IpAddress::V4(Ipv4Address(0xC000_0209)),
            peer_as: 65_000,
            attributes: vec![0x40, 0x01],
        })
    );
    assert_eq!(used, 12 + 24);
}

#[test]
fn table_dump_ipv6() {
    let mut p = vec![0, 1, 0, 2];
    p.extend_from_slice(&V6_A.to_be_bytes());
    p.extend_from_slice(&[64, 1, 0, 0, 0, 60]);
    p.extend_from_slice(&V6_B.to_be_bytes());
    p.extend_from_slice(&[0, 7, 0, 0]);
    let (_, r, used) = decode_one(record(12, 2, &p)).unwrap();
    match r {
        Record::TABLE_DUMP(t) => {
            assert_eq!(t.prefix, IpAddress::V6(Ipv6Address(V6_A)));
            assert_eq!(t.peer_address, IpAddress::V6(Ipv6Address(V6_B)));
            assert_eq!(t.prefix_length, 64);
            assert_eq!(t.peer_as, 7);
            assert_eq!(t.attributes, Vec::<u8>::new());
        }
        other => panic!("{:?}", other),
    }
    assert_eq!(used, 12 + 46);
}

#[test]
fn table_dump_subtype_is_family() {
    assert_eq!(decode_one(record(12, 3, &[0, 0, 0, 0, 1, 2, 3, 4])), Err(DecodeError::InvalidAfi(3)));
    assert_eq!(decode_one(record(12, 0, &[0, 0, 0, 0])), Err(DecodeError::InvalidAfi(0)));
    assert_eq!(decode_one(record(12, 0, &[0, 0, 0])), Err(DecodeError::Truncated));
}

#[test]
fn peer_index_table_without_peers() {
    let p = [0u8, 0, 0, 9, 0, 0, 0, 0];
    let (_, r, used) = decode_one(record(13, 1, &p)).unwrap();
    assert_eq!(
        r,
        Record::TABLE_DUMP_V2(TABLE_DUMP_V2::PEER_INDEX_TABLE(PEER_INDEX_TABLE {
            collector_id: 9,
            view_name: String::new(),
            peer_entries: vec![],
        }))
    );
    assert_eq!(used, 20);
}

#[test]
fn peer_entry_widths_follow_the_tag() {
    let body4 = [1u8, 2, 3, 4];
    let body16 = V6_A.to_be_bytes();
    for tag in 0u8..=255 {
        let mut p = vec![tag, 0, 0, 0, 5];
        if tag & 1 != 0 {
            p.extend_from_slice(&body16);
        } else {
            p.extend_from_slice(&body4);
        }
        if tag & 2 != 0 {
            p.extend_from_slice(&[0, 1, 0, 0]);
        } else {
            p.extend_from_slice(&[0xFF, 0xFE]);
        }
        let len = p.len();
        p.extend_from_slice(&[0xEE; 20]);
        let mut stream = ByteStream::new(p);
        let e = PeerEntry::parse(&mut stream).unwrap();
        assert_eq!(stream.offset(), len);
        assert_eq!(len, 5 + if tag & 1 != 0 { 16 } else { 4 } + if tag & 2 != 0 { 4 } else { 2 });
        assert_eq!(e.peer_type, tag);
        assert_eq!(e.peer_bgp_id, 5);
        assert_eq!(
            e.peer_ip_address,
            if tag & 1 != 0 { IpAddress::V6(Ipv6Address(V6_A)) } else { IpAddress::V4(Ipv4Address(0x0102_0304)) }
        );
        assert_eq!(e.peer_as, if tag & 2 != 0 { 65_536 } else { 0xFFFE });
    }
}

#[test]
fn peer_index_table_with_peers() {
    let mut p = vec![10, 0, 0, 1, 0, 4, b'v', b'i', b'e', b'w', 0, 2];
    p.extend_from_slice(&[0, 1, 1, 1, 1, 9, 9, 9, 9, 0, 100]);
    p.extend_from_slice(&[3, 2, 2, 2, 2]);
    p.extend_from_slice(&V6_B.to_be_bytes());
    p.extend_from_slice(&[0, 3, 0, 0]);
    let (_, r, used) = decode_one(record(13, 1, &p)).unwrap();
    assert_eq!(
        r,
        Record::TABLE_DUMP_V2(TABLE_DUMP_V2::PEER_INDEX_TABLE(PEER_INDEX_TABLE {
            collector_id: 0x0A00_0001,
            view_name: String::from("view"),
            peer_entries: vec![
                PeerEntry {
                    peer_type: 0,
                    peer_bgp_id: 0x0101_0101,
                    peer_ip_address: IpAddress::V4(Ipv4Address(0x0909_0909)),
                    peer_as: 100,
                },
                PeerEntry {
                    peer_type: 3,
                    peer_bgp_id: 0x0202_0202,
                    peer_ip_address: IpAddress::V6(Ipv6Address(V6_B)),
                    peer_as: 196_608,
                },
            ],
        }))
    );
    assert_eq!(used, 12 + p.len());
    let short = &p[..p.len() - 1];
    assert_eq!(decode_one(record(13, 1, short)), Err(DecodeError::Truncated));
}

#[test]
fn peer_index_table_repairs_the_name() {
    let p = [0u8, 0, 0, 9, 0, 3, b'f', 0xFF, b'o', 0, 0];
    let (_, r, _) = decode_one(record(13, 1, &p)).unwrap();
    match r {
        Record::TABLE_DUMP_V2(TABLE_DUMP_V2::PEER_INDEX_TABLE(t)) => {
            assert_eq!(t.view_name, "f\u{FFFD}o");
        }
        other => panic!("{:?}", other),
    }
    let p = [0u8, 0, 0, 9, 0, 2, 0xC3, 0xA9, 0, 0];
    let (_, r, _) = decode_one(record(13, 1, &p)).unwrap();
    match r {
        Record::TABLE_DUMP_V2(TABLE_DUMP_V2::PEER_INDEX_TABLE(t)) => assert_eq!(t.view_name, "\u{E9}"),
        other => panic!("{:?}", other),
    }
}

#[test]
fn rib_afi_subtypes() {
    let p = [0u8, 0, 0, 5, 20, 10, 20, 0x30, 0, 2, 0, 1, 0, 0, 0, 60, 0, 1, 0xAA, 0, 2, 0, 0, 0, 61, 0, 0];
    for sub in [2u16, 3, 4, 5] {
        let (_, r, used) = decode_one(record(13, sub, &p)).unwrap();
        let rib = match (sub, r) {
            (2, Record::TABLE_DUMP_V2(TABLE_DUMP_V2::RIB_IPV4_UNICAST(x))) => x,
            (3, Record::TABLE_DUMP_V2(TABLE_DUMP_V2::RIB_IPV4_MULTICAST(x))) => x,
            (4, Record::TABLE_DUMP_V2(TABLE_DUMP_V2::RIB_IPV6_UNICAST(x))) => x,
            (5, Record::TABLE_DUMP_V2(TABLE_DUMP_V2::RIB_IPV6_MULTICAST(x))) => x,
            (_, other) => panic!("{:?}", other),
        };
        assert_eq!(
            rib,
            RIB_AFI {
                sequence_number: 5,
                prefix_length: 20,
                prefix: vec![10, 20, 0x30],
                entries: vec![
                    RIBEntry { peer_index: 1, originated_time: 60, attributes: vec![0xAA] },
                    RIBEntry { peer_index: 2, originated_time: 61, attributes: vec![] },
                ],
            }
        );
        assert_eq!(used, 12 + p.len());
    }
}

#[test]
fn rib_prefix_bytes_round_up() {
    for (bits, bytes) in [(0u8, 0usize), (1, 1), (8, 1), (9, 2), (24, 3), (25, 4), (128, 16), (248, 31), (249, 32), (255, 32)] {
        let mut p = vec![0, 0, 0, 1, bits];
        p.extend_from_slice(&vec![0x11; bytes]);
        p.extend_from_slice(&[0, 0]);
        let (_, r, used) = decode_one(record(13, 2, &p)).unwrap();
        match r {
            Record::TABLE_DUMP_V2(TABLE_DUMP_V2::RIB_IPV4_UNICAST(x)) => {
                assert_eq!(x.prefix.len(), bytes);
                assert_eq!(x.entries.len(), 0);
            }
            other => panic!("{:?}", other),
        }
        assert_eq!(used, 12 + 7 + bytes);
    }
}

#[test]
fn rib_afi_addpath_subtypes() {
    let p = [0u8, 0, 0, 5, 8, 10, 0, 1, 0, 1, 0, 0, 0, 60, 0, 0, 0, 42, 0, 2, 0xAA, 0xBB];
    for sub in [8u16, 9, 10, 11] {
        let (_, r, used) = decode_one(record(13, sub, &p)).unwrap();
        let rib = match (sub, r) {
            (8, Record::TABLE_DUMP_V2(TABLE_DUMP_V2::RIB_IPV4_UNICAST_ADDPATH(x))) => x,
            (9, Record::TABLE_DUMP_V2(TABLE_DUMP_V2::RIB_IPV4_MULTICAST_ADDPATH(x))) => x,
            (10, Record::TABLE_DUMP_V2(TABLE_DUMP_V2::RIB_IPV6_UNICAST_ADDPATH(x))) => x,
            (11, Record::TABLE_DUMP_V2(TABLE_DUMP_V2::RIB_IPV6_MULTICAST_ADDPATH(x))) => x,
            (_, other) => panic!("{:?}", other),
        };
        assert_eq!(rib.sequence_number, 5);
        assert_eq!(rib.prefix_length, 8);
        assert_eq!(rib.prefix, vec![10]);
        assert_eq!(
            rib.entries,
            vec![RIBEntryAddPath { peer_index: 1, originated_time: 60, path_identifier: 42, attributes: vec![0xAA, 0xBB] }]
        );
        assert_eq!(used, 12 + p.len());
    }
}

fn generic_payload(afi: u16, safi: u8, nlri: &[u8]) -> Vec<u8> {
    let mut p = vec![0, 0, 0, 3];
    p.extend_from_slice(&afi.to_be_bytes());
    p.push(safi);
    p.extend_from_slice(nlri);
    p.extend_from_slice(&[0, 1, 0, 4, 0, 0, 0, 9, 0, 1, 0x77]);
    p
}

#[test]
fn rib_generic_nlri_lengths() {
    let (_, r, used) = decode_one(record(13, 6, &generic_payload(1, 1, &[1, 2, 3, 4]))).unwrap();
    assert_eq!(
        r,
        Record::TABLE_DUMP_V2(TABLE_DUMP_V2::RIB_GENERIC(RIB_GENERIC {
            sequence_number: 3,
            afi: AFI::IPV4,
            safi: 1,
            nlri: vec![1, 2, 3, 4],
            entries: vec![RIBEntry { peer_index: 4, originated_time: 9, attributes: vec![0x77] }],
        }))
    );
    assert_eq!(used, 12 + 7 + 4 + 11);
    let v6 = V6_A.to_be_bytes();
    for safi in [1u8, 128] {
        let (_, r, used) = decode_one(record(13, 6, &generic_payload(2, safi, &v6))).unwrap();
        match r {
            Record::TABLE_DUMP_V2(TABLE_DUMP_V2::RIB_GENERIC(x)) => {
                assert_eq!(x.afi, AFI::IPV6);
                assert_eq!(x.safi, safi);
                assert_eq!(x.nlri, v6.to_vec());
                assert_eq!(x.entries.len(), 1);
            }
            other => panic!("{:?}", other),
        }
        assert_eq!(used, 12 + 7 + 16 + 11);
    }
}

#[test]
fn rib_generic_labeled_nlri_has_a_length_byte() {
    let (_, r, used) = decode_one(record(13, 6, &generic_payload(1, 128, &[20, 0xA, 0xB, 0xC]))).unwrap();
    match r {
        Record::TABLE_DUMP_V2(TABLE_DUMP_V2::RIB_GENERIC(x)) => {
            assert_eq!(x.safi, 128);
            assert_eq!(x.nlri, vec![0xA, 0xB, 0xC]);
            assert_eq!(x.entries, vec![RIBEntry { peer_index: 4, originated_time: 9, attributes: vec![0x77] }]);
        }
        other => panic!("{:?}", other),
    }
    assert_eq!(used, 12 + 7 + 1 + 3 + 11);
    let (_, r, _) = decode_one(record(13, 6, &generic_payload(1, 128, &[0]))).unwrap();
    match r {
        Record::TABLE_DUMP_V2(TABLE_DUMP_V2::RIB_GENERIC(x)) => assert_eq!(x.nlri, Vec::<u8>::new()),
        other => panic!("{:?}", other),
    }
}

#[test]
fn rib_generic_addpath() {
    let mut p = vec![0, 0, 0, 3, 0, 1, 128, 9, 0xA, 0xB];
    p.extend_from_slice(&[0, 1, 0, 4, 0, 0, 0, 9, 0, 0, 0, 5, 0, 0]);
    let (_, r, used) = decode_one(record(13, 12, &p)).unwrap();
    match r {
        Record::TABLE_DUMP_V2(TABLE_DUMP_V2::RIB_GENERIC_ADDPATH(x)) => {
            assert_eq!(x.afi, AFI::IPV4);
            assert_eq!(x.nlri, vec![0xA, 0xB]);
            assert_eq!(
                x.entries,
                vec![RIBEntryAddPath { peer_index: 4, originated_time: 9, path_identifier: 5, attributes: vec![] }]
            );
        }
        other => panic!("{:?}", other),
    }
    assert_eq!(used, 12 + p.len());
}

#[test]
fn rib_generic_invalid_afi() {
    assert_eq!(decode_one(record(13, 6, &generic_payload(7, 1, &[1, 2, 3, 4]))), Err(DecodeError::InvalidAfi(7)));
    assert_eq!(decode_one(record(13, 12, &generic_payload(0, 1, &[]))), Err(DecodeError::InvalidAfi(0)));
}

#[test]
fn table_dump_v2_unknown_subtype() {
    for sub in [0u16, 7, 13, 1000] {
        assert_eq!(decode_one(record(13, sub, &[0; 16])), Err(DecodeError::UnknownSubtype(sub)));
    }
}

#[test]
fn rib_entry_truncated_attributes() {
    let p = [0u8, 0, 0, 5, 0, 0, 1, 0, 1, 0, 0, 0, 60, 0, 2, 0xAA];
    assert_eq!(decode_one(record(13, 2, &p)), Err(DecodeError::Truncated));
    let p = [0u8, 0, 0, 5, 0, 0, 2, 0, 1, 0, 0, 0, 60, 0, 0];
    assert_eq!(decode_one(record(13, 2, &p)), Err(DecodeError::Truncated));
}

fn encode_bgp4mp_message(h: &Header, m: &mrt_rs::bgp4mp::MESSAGE_AS4) -> Vec<u8> {
    let mut out = header(h.timestamp, h.record_type, h.sub_type, h.length);
    if h.record_type == 17 {
        out.extend_from_slice(&h.extended.to_be_bytes());
    }
    out.extend_from_slice(&m.peer_as.to_be_bytes());
    out.extend_from_slice(&m.local_as.to_be_bytes());
    out.extend_from_slice(&m.interface.to_be_bytes());
    for (i, a) in [m.peer_address, m.local_address].into_iter().enumerate() {
        match a {
            IpAddress::V4(Ipv4Address(x)) => {
                if i == 0 {
                    out.extend_from_slice(&1u16.to_be_bytes());
                }
                out.extend_from_slice(&x.to_be_bytes());
            }
            IpAddress::V6(Ipv6Address(x)) => {
                if i == 0 {
                    out.extend_from_slice(&2u16.to_be_bytes());
                }
                out.extend_from_slice(&x.to_be_bytes());
            }
        }
    }
    out.extend_from_slice(&m.message);
    out
}

#[test]
fn round_trip_of_a_decoded_record() {
    let mut bytes = header(99, 17, 4, 12 + 32 + 3);
    bytes.extend_from_slice(&[0, 0, 0, 1]);
    bytes.extend_from_slice(&bgp4mp_as4_payload(2, &[5, 6, 7]));
    let (h, r, used) = decode_one(bytes.clone()).unwrap();
    assert_eq!(used, bytes.len());
    let m = match &r {
        Record::BGP4MP_ET(BGP4MP::MESSAGE_AS4(m)) => m,
        other => panic!("{:?}", other),
    };
    let again = encode_bgp4mp_message(&h, m);
    assert_eq!(again, bytes);
    let (h2, r2, used2) = decode_one(again).unwrap();
    assert_eq!(h2, h);
    assert_eq!(r2, r);
    assert_eq!(used2, used);
}

fn plain_header(record_type: u16, sub_type: u16, length: u32) -> Header {
    Header { timestamp: 0, extended: 0, record_type, sub_type, length }
}

#[test]
fn undefined_subtype_takes_no_byte() {
    let mut stream = ByteStream::new(vec![0xAA]);
    let r = TABLE_DUMP_V2::parse(&plain_header(13, 7, 0), &mut stream);
    assert_eq!(r, Err(DecodeError::UnknownSubtype(7)));
    assert_eq!(stream.offset(), 0);
    assert_eq!(stream.read_u8(), Ok(0xAA));
    for sub in [0u16, 13, 65535] {
        let mut stream = ByteStream::new(vec![0xAA; 40]);
        assert_eq!(
            TABLE_DUMP_V2::parse(&plain_header(13, sub, 0), &mut stream),
            Err(DecodeError::UnknownSubtype(sub))
        );
        assert_eq!(stream.offset(), 0);
    }
    for sub in [12u16, 13, 65535] {
        let mut stream = ByteStream::new(vec![0xAA; 40]);
        assert_eq!(BGP4MP::parse(&plain_header(16, sub, 40), &mut stream), Err(DecodeError::UnknownSubtype(sub)));
        assert_eq!(stream.offset(), 0);
    }
    for sub in [8u16, 9, 65535] {
        let mut stream = ByteStream::new(vec![0xAA; 40]);
        assert_eq!(BGP::parse(&plain_header(5, sub, 40), &mut stream), Err(DecodeError::UnknownSubtype(sub)));
        assert_eq!(stream.offset(), 0);
        assert_eq!(BGP4PLUS::parse(&plain_header(9, sub, 40), &mut stream), Err(DecodeError::UnknownSubtype(sub)));
        assert_eq!(stream.offset(), 0);
    }
}

#[test]
fn undefined_record_type_is_found_behind_the_base_header() {
    let mut bytes = header(0, 99, 0, 4);
    bytes.extend_from_slice(&[1, 2, 3, 4]);
    let mut stream = ByteStream::new(bytes);
    assert_eq!(read(&mut stream), Err(DecodeError::UnknownRecordType(99)));
    assert_eq!(stream.offset(), 12);
    let mut stream = ByteStream::new(vec![0xAA]);
    assert_eq!(Record::parse(&plain_header(14, 0, 0), &mut stream), Err(DecodeError::UnknownRecordType(14)));
    assert_eq!(stream.offset(), 0);
}

#[test]
fn record_parse_picks_the_decoder() {
    let mut stream = ByteStream::new(vec![1, 2, 3]);
    assert_eq!(Record::parse(&plain_header(32, 0, 2), &mut stream), Ok(Record::ISIS(vec![1, 2])));
    assert_eq!(stream.offset(), 2);
    assert_eq!(Record::parse(&plain_header(33, 0, 1), &mut stream), Ok(Record::ISIS_ET(vec![3])));
    assert_eq!(Record::parse(&plain_header(2, 0, 9), &mut stream), Ok(Record::DIE));
    assert_eq!(stream.offset(), 3);
}

#[test]
fn invalid_tags_leave_the_cursor_behind_them() {
    let mut stream = ByteStream::new(entry_payload(5, 8));
    assert_eq!(mrt_rs::bgp4mp::ENTRY::parse(&mut stream), Err(DecodeError::InvalidNextHopLength(5)));
    assert_eq!(stream.offset(), 16 + 12);
    let mut stream = ByteStream::new(vec![0, 9, 1, 2, 3, 4, 5, 6, 7, 8]);
    assert_eq!(OSPFv3::parse(&plain_header(48, 0, 8), &mut stream), Err(DecodeError::InvalidAfi(9)));
    assert_eq!(stream.offset(), 2);
    let mut p = bgp4mp_message_payload(&[1, 2]);
    p[7] = 3;
    let mut stream = ByteStream::new(p);
    assert_eq!(BGP4MP::parse(&plain_header(16, 1, 18), &mut stream), Err(DecodeError::InvalidAfi(3)));
    assert_eq!(stream.offset(), 8);
    let mut stream = ByteStream::new(bgp4mp_as4_payload(7, &[]));
    assert_eq!(BGP4MP::parse(&plain_header(16, 4, 18), &mut stream), Err(DecodeError::InvalidAfi(7)));
    assert_eq!(stream.offset(), 12);
    let mut stream = ByteStream::new(vec![0, 0, 0, 0, 1, 2, 3, 4]);
    assert_eq!(TABLE_DUMP::parse(&plain_header(12, 3, 0), &mut stream), Err(DecodeError::InvalidAfi(3)));
    assert_eq!(stream.offset(), 4);
    let mut stream = ByteStream::new(generic_payload(7, 1, &[1, 2, 3, 4]));
    assert_eq!(RIB_GENERIC::parse(&mut stream), Err(DecodeError::InvalidAfi(7)));
    assert_eq!(stream.offset(), 6);
}

#[test]
fn invalid_lengths_leave_the_cursor_where_they_are_found() {
    let mut stream = ByteStream::new(bgp4mp_message_payload(&[1, 2]));
    assert_eq!(BGP4MP::parse(&plain_header(16, 1, 15), &mut stream), Err(DecodeError::InvalidLength(15)));
    assert_eq!(stream.offset(), 16);
    let mut stream = ByteStream::new(bgp4mp_as4_payload(2, &[1, 2]));
    assert_eq!(BGP4MP::parse(&plain_header(16, 4, 43), &mut stream), Err(DecodeError::InvalidLength(43)));
    assert_eq!(stream.offset(), 44);
    let mut stream = ByteStream::new(vec![0; 20]);
    assert_eq!(BGP::parse(&plain_header(5, 1, 11), &mut stream), Err(DecodeError::InvalidLength(11)));
    assert_eq!(stream.offset(), 12);
    let mut stream = ByteStream::new(vec![0; 40]);
    assert_eq!(BGP4PLUS::parse(&plain_header(9, 1, 35), &mut stream), Err(DecodeError::InvalidLength(35)));
    assert_eq!(stream.offset(), 36);
    let mut stream = ByteStream::new(vec![0; 40]);
    assert_eq!(RIP::parse(&plain_header(6, 0, 7), &mut stream), Err(DecodeError::InvalidLength(7)));
    assert_eq!(stream.offset(), 0);
    assert_eq!(OSPFv2::parse(&plain_header(11, 0, 7), &mut stream), Err(DecodeError::InvalidLength(7)));
    assert_eq!(stream.offset(), 0);
    assert_eq!(RIPNG::parse(&plain_header(8, 0, 31), &mut stream), Err(DecodeError::InvalidLength(31)));
    assert_eq!(stream.offset(), 0);
    let mut stream = ByteStream::new(vec![0, 1, 9, 9, 9, 9, 9, 9, 9, 9]);
    assert_eq!(OSPFv3::parse(&plain_header(48, 0, 7), &mut stream), Err(DecodeError::InvalidLength(7)));
    assert_eq!(stream.offset(), 2);
}

#[test]
fn truncated_record_reads_the_stream_to_its_end() {
    let mut bytes = header(0, 16, 1, 20);
    bytes.extend_from_slice(&bgp4mp_message_payload(&[0xFF; 3]));
    let len = bytes.len();
    let mut stream = ByteStream::new(bytes);
    assert_eq!(read(&mut stream), Err(DecodeError::Truncated));
    assert_eq!(stream.offset(), len);
    assert_eq!(read(&mut stream), Ok(None));
    let mut stream = ByteStream::new(vec![0, 0]);
    assert_eq!(read(&mut stream), Err(DecodeError::Truncated));
    assert_eq!(stream.offset(), 2);
    let p = [0u8, 0, 0, 5, 0, 0, 2, 0, 1, 0, 0, 0, 60, 0, 0, 0, 9];
    let mut stream = ByteStream::new(p.to_vec());
    assert_eq!(RIB_AFI::parse(&mut stream), Err(DecodeError::Truncated));
    assert_eq!(stream.offset(), p.len());
    let mut stream = ByteStream::new(vec![0, 0, 0, 9, 0, 0, 0, 2, 1, 0, 0]);
    assert_eq!(PEER_INDEX_TABLE::parse(&mut stream), Err(DecodeError::Truncated));
    assert_eq!(stream.offset(), 11);
}
