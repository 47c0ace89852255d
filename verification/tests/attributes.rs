use mrt_rs::error::DecodeError;
use mrt_rs::records::tabledump::AsPath;
use mrt_rs::records::tabledump::Origin;
use mrt_rs::records::tabledump::PathAttribute;
use mrt_rs::records::tabledump::SegmentType;
use mrt_rs::stream::ByteStream;

#[test]
fn parse_origin_igp() -> Result<(), DecodeError> {
    let mut rdr = ByteStream::new(vec![64, 1, 1, 0]);
    let have = PathAttribute::parse(&mut rdr, 4u16)?;
    let want = PathAttribute::ORIGIN(Origin::IGP);

    assert_eq!(have, want);
    Ok(())
}

#[test]
fn parse_origin_egp() -> Result<(), DecodeError> {
    let mut rdr = ByteStream::new(vec![64, 1, 1, 1]);
    let have = PathAttribute::parse(&mut rdr, 4u16)?;
    let want = PathAttribute::ORIGIN(Origin::EGP);

    assert_eq!(have, want);
    Ok(())
}

#[test]
fn parse_origin_incomplete() -> Result<(), DecodeError> {
    let mut rdr = ByteStream::new(vec![64, 1, 1, 2]);
    let have = PathAttribute::parse(&mut rdr, 4u16)?;
    let want = PathAttribute::ORIGIN(Origin::INCOMPLETE);

    assert_eq!(have, want);
    Ok(())
}

#[test]
fn parse_aspath_unordered() -> Result<(), DecodeError> {
    let mut rdr = ByteStream::new(vec![64, 2, 10, 1, 2, 0, 0, 165, 233, 0, 0, 5, 19]);
    let have = PathAttribute::parse(&mut rdr, 13u16)?;
    let as_path_values = AsPath {
        segment_type: SegmentType::AS_SET,
        as_path: vec![42473, 1299],
    };
    let want = PathAttribute::ASPATH(as_path_values);

    assert_eq!(have, want);
    Ok(())
}

#[test]
fn parse_aspath_ordered() -> Result<(), DecodeError> {
    let mut rdr = ByteStream::new(vec![64, 2, 10, 2, 2, 0, 0, 165, 233, 0, 0, 5, 19]);
    let have = PathAttribute::parse(&mut rdr, 13u16)?;
    let as_path_values = AsPath {
        segment_type: SegmentType::AS_SEQUENCE,
        as_path: vec![42473, 1299],
    };
    let want = PathAttribute::ASPATH(as_path_values);

    assert_eq!(have, want);
    Ok(())
}

#[test]
fn parse_segment_type_unordered() -> Result<(), DecodeError> {
    let mut rdr = ByteStream::new(vec![1]);
    let have = SegmentType::parse(&mut rdr)?;
    let want = SegmentType::AS_SET;
    assert_eq!(have, want);
    Ok(())
}

#[test]
fn parse_segment_type_ordered() -> Result<(), DecodeError> {
    let mut rdr = ByteStream::new(vec![2]);
    let have = SegmentType::parse(&mut rdr)?;
    let want = SegmentType::AS_SEQUENCE;
    assert_eq!(have, want);
    Ok(())
}

#[test]
fn origin_values() {
    for (byte, want) in [(0u8, Origin::IGP), (1, Origin::EGP), (2, Origin::INCOMPLETE)] {
        let mut rdr = ByteStream::new(vec![byte]);
        assert_eq!(Origin::parse(&mut rdr), Ok(want));
        assert_eq!(rdr.offset(), 1);
    }
    let mut rdr = ByteStream::new(vec![3]);
    assert_eq!(Origin::parse(&mut rdr), Err(DecodeError::InvalidOrigin(3)));
    let mut rdr = ByteStream::new(vec![]);
    assert_eq!(Origin::parse(&mut rdr), Err(DecodeError::Truncated));
}

#[test]
fn segment_type_errors() {
    let mut rdr = ByteStream::new(vec![0]);
    assert_eq!(SegmentType::parse(&mut rdr), Err(DecodeError::InvalidSegmentType(0)));
    let mut rdr = ByteStream::new(vec![3]);
    assert_eq!(SegmentType::parse(&mut rdr), Err(DecodeError::InvalidSegmentType(3)));
    let mut rdr = ByteStream::new(vec![]);
    assert_eq!(SegmentType::parse(&mut rdr), Err(DecodeError::Truncated));
}

#[test]
fn as_path_counts() {
    let mut rdr = ByteStream::new(vec![2, 0, 9]);
    assert_eq!(AsPath::parse(&mut rdr), Ok(AsPath { segment_type: SegmentType::AS_SEQUENCE, as_path: vec![] }));
    assert_eq!(rdr.offset(), 2);
    let mut rdr = ByteStream::new(vec![1, 1, 0xFF, 0xFF, 0xFF, 0xFF]);
    assert_eq!(AsPath::parse(&mut rdr), Ok(AsPath { segment_type: SegmentType::AS_SET, as_path: vec![u32::MAX] }));
    assert_eq!(rdr.offset(), 6);
    let mut rdr = ByteStream::new(vec![1, 2, 0, 0, 0, 1, 0, 0, 0]);
    assert_eq!(AsPath::parse(&mut rdr), Err(DecodeError::Truncated));
    let mut rdr = ByteStream::new(vec![1]);
    assert_eq!(AsPath::parse(&mut rdr), Err(DecodeError::Truncated));
    let mut rdr = ByteStream::new(vec![9, 0]);
    assert_eq!(AsPath::parse(&mut rdr), Err(DecodeError::InvalidSegmentType(9)));
}

#[test]
fn attribute_codes_without_value() {
    let cases = [
        (3u8, PathAttribute::NEXTHOP),
        (4, PathAttribute::MULTIEXITDISC),
        (5, PathAttribute::LOCALPREF),
        (6, PathAttribute::ATOMICAGGREGATE),
        (7, PathAttribute::AGGREGATOR),
    ];
    for (code, want) in cases {
        let mut rdr = ByteStream::new(vec![64, code, 4, 1, 2, 3, 4]);
        assert_eq!(PathAttribute::parse(&mut rdr, 7), Ok(want));
        assert_eq!(rdr.offset(), 3);
    }
}

#[test]
fn attribute_extended_length() {
    let mut rdr = ByteStream::new(vec![0x50, 1, 0, 1, 2]);
    assert_eq!(PathAttribute::parse(&mut rdr, 5), Ok(PathAttribute::ORIGIN(Origin::INCOMPLETE)));
    assert_eq!(rdr.offset(), 5);
    let mut rdr = ByteStream::new(vec![0x50, 1, 1, 1, 2]);
    assert_eq!(PathAttribute::parse(&mut rdr, 5), Err(DecodeError::InvalidAttributeLength(257)));
    let mut rdr = ByteStream::new(vec![0x50, 3, 0]);
    assert_eq!(PathAttribute::parse(&mut rdr, 3), Err(DecodeError::Truncated));
}

#[test]
fn attribute_errors() {
    let mut rdr = ByteStream::new(vec![64, 1, 2, 0, 0]);
    assert_eq!(PathAttribute::parse(&mut rdr, 5), Err(DecodeError::InvalidAttributeLength(2)));
    for code in [0u8, 8, 255] {
        let mut rdr = ByteStream::new(vec![64, code, 0]);
        assert_eq!(PathAttribute::parse(&mut rdr, 3), Err(DecodeError::UnknownAttributeType(code)));
    }
    let mut rdr = ByteStream::new(vec![64, 1, 1, 9]);
    assert_eq!(PathAttribute::parse(&mut rdr, 4), Err(DecodeError::InvalidOrigin(9)));
    let mut rdr = ByteStream::new(vec![64]);
    assert_eq!(PathAttribute::parse(&mut rdr, 1), Err(DecodeError::Truncated));
    let mut rdr = ByteStream::new(vec![64, 2]);
    assert_eq!(PathAttribute::parse(&mut rdr, 2), Err(DecodeError::Truncated));
}

#[test]
fn attribute_low_flag_bits_are_ignored() {
    for flags in [0x40u8, 0x41, 0x42, 0x44, 0x48, 0x4F, 0x0E, 0x0F, 0x00] {
        let mut rdr = ByteStream::new(vec![flags, 1, 1, 0]);
        assert_eq!(PathAttribute::parse(&mut rdr, 4), Ok(PathAttribute::ORIGIN(Origin::IGP)));
        assert_eq!(rdr.offset(), 4);
    }
    for flags in [0x50u8, 0x5F, 0x1E] {
        let mut rdr = ByteStream::new(vec![flags, 1, 0, 1, 1]);
        assert_eq!(PathAttribute::parse(&mut rdr, 5), Ok(PathAttribute::ORIGIN(Origin::EGP)));
        assert_eq!(rdr.offset(), 5);
    }
}

#[test]
fn attribute_errors_leave_the_cursor_where_they_are_found() {
    let mut rdr = ByteStream::new(vec![64, 1, 2, 0, 0]);
    assert_eq!(PathAttribute::parse(&mut rdr, 5), Err(DecodeError::InvalidAttributeLength(2)));
    assert_eq!(rdr.offset(), 3);
    let mut rdr = ByteStream::new(vec![0x50, 1, 0, 2, 0, 0]);
    assert_eq!(PathAttribute::parse(&mut rdr, 6), Err(DecodeError::InvalidAttributeLength(2)));
    assert_eq!(rdr.offset(), 4);
    let mut rdr = ByteStream::new(vec![64, 9, 0, 1, 2]);
    assert_eq!(PathAttribute::parse(&mut rdr, 5), Err(DecodeError::UnknownAttributeType(9)));
    assert_eq!(rdr.offset(), 3);
    let mut rdr = ByteStream::new(vec![64, 1, 1, 9, 7]);
    assert_eq!(PathAttribute::parse(&mut rdr, 5), Err(DecodeError::InvalidOrigin(9)));
    assert_eq!(rdr.offset(), 4);
    let mut rdr = ByteStream::new(vec![64, 2, 0, 5, 0, 0]);
    assert_eq!(PathAttribute::parse(&mut rdr, 6), Err(DecodeError::InvalidSegmentType(5)));
    assert_eq!(rdr.offset(), 4);
    let mut rdr = ByteStream::new(vec![64, 2, 0, 1, 2, 0, 0, 0, 1, 0, 0]);
    assert_eq!(PathAttribute::parse(&mut rdr, 11), Err(DecodeError::Truncated));
    assert_eq!(rdr.offset(), 11);
    assert!(rdr.at_end());
}
