use av1_obu::bits::bitstream::BitStream;
use av1_obu::error::Error;
use av1_obu::obu::obu_header::{ObuExtensionHeader, ObuHeader, ObuType};

#[test]
fn obu_header() {
    let mut bs = BitStream::new(vec![8, 15]);
    let obu_header = ObuHeader::new(&mut bs).unwrap();

    assert_eq!(false, obu_header.obu_forbidden_bit);
    assert_eq!(ObuType::ObuSequenceHeader, obu_header.obu_type);
    assert_eq!(false, obu_header.obu_extension_flag);
    assert_eq!(false, obu_header.obu_has_size_field);
    assert_eq!(false, obu_header.obu_reserved_1bit);
    assert_eq!(None, obu_header.obu_extension_header);
}

#[test]
fn obu_extension_header() {
    let mut bs = BitStream::new(vec![22]);
    let obu_extension_header = ObuExtensionHeader::new(&mut bs).unwrap();

    assert_eq!(0, obu_extension_header.temporal_id);
    assert_eq!(2, obu_extension_header.spatial_id);
    assert_eq!(6, obu_extension_header.extension_header_reserved_3bits);
}

#[test]
fn obu_header_takes_one_byte_without_extension() {
    let mut bs = BitStream::new(vec![8, 15]);
    ObuHeader::new(&mut bs).unwrap();
    assert_eq!(8, bs.position());
}

#[test]
fn obu_header_with_extension_and_size_field() {
    // 0 0011 1 1 1: frame header, extension, size field, reserved bit set.
    // 101 10 011: temporal layer 5, spatial layer 2.
    let mut bs = BitStream::new(vec![0b0001_1111, 0b1011_0011, 0xff]);
    let header = ObuHeader::new(&mut bs).unwrap();
    assert_eq!(
        ObuHeader {
            obu_forbidden_bit: false,
            obu_type: ObuType::ObuFrameHeader,
            obu_extension_flag: true,
            obu_has_size_field: true,
            obu_reserved_1bit: true,
            obu_extension_header: Some(ObuExtensionHeader {
                temporal_id: 5,
                spatial_id: 2,
                extension_header_reserved_3bits: 3,
            }),
        },
        header
    );
    assert_eq!(16, bs.position());
}

#[test]
fn obu_header_with_the_forbidden_bit() {
    let mut bs = BitStream::new(vec![0b1111_1000]);
    let header = ObuHeader::new(&mut bs).unwrap();
    assert!(header.obu_forbidden_bit);
    assert_eq!(ObuType::ObuPadding, header.obu_type);
    assert!(!header.obu_extension_flag);
}

#[test]
fn obu_header_past_the_end() {
    let mut empty = BitStream::new(vec![]);
    assert_eq!(Err(Error::EndOfStream), ObuHeader::new(&mut empty));
    // The extension flag is set, but the extension byte is missing.
    let mut short = BitStream::new(vec![0b0000_1100]);
    assert_eq!(Err(Error::EndOfStream), ObuHeader::new(&mut short));
    let mut extension = BitStream::new(vec![]);
    assert_eq!(Err(Error::EndOfStream), ObuExtensionHeader::new(&mut extension));
}

#[test]
fn obu_type_of_each_code() {
    assert_eq!(Ok(ObuType::Reserved), ObuType::new(0));
    assert_eq!(Ok(ObuType::ObuSequenceHeader), ObuType::new(1));
    assert_eq!(Ok(ObuType::ObuTemporalDelimiter), ObuType::new(2));
    assert_eq!(Ok(ObuType::ObuFrameHeader), ObuType::new(3));
    assert_eq!(Ok(ObuType::ObuTileGroup), ObuType::new(4));
    assert_eq!(Ok(ObuType::ObuMetadata), ObuType::new(5));
    assert_eq!(Ok(ObuType::ObuFrame), ObuType::new(6));
    assert_eq!(Ok(ObuType::ObuRedundantFrameHeader), ObuType::new(7));
    assert_eq!(Ok(ObuType::ObuTileList), ObuType::new(8));
    for code in 9..=14 {
        assert_eq!(Ok(ObuType::Reserved), ObuType::new(code));
    }
    assert_eq!(Ok(ObuType::ObuPadding), ObuType::new(15));
}

#[test]
fn obu_type_of_a_code_that_does_not_fit() {
    assert_eq!(Err(Error::InvalidObuType), ObuType::new(16));
    assert_eq!(Err(Error::InvalidObuType), ObuType::new(u64::MAX));
}

#[test]
fn filterable_types() {
    assert!(!ObuType::ObuSequenceHeader.filterable());
    assert!(!ObuType::ObuTemporalDelimiter.filterable());
    assert!(ObuType::ObuFrameHeader.filterable());
    assert!(ObuType::ObuFrame.filterable());
    assert!(ObuType::ObuTileGroup.filterable());
    assert!(ObuType::ObuMetadata.filterable());
    assert!(ObuType::ObuRedundantFrameHeader.filterable());
    assert!(ObuType::ObuTileList.filterable());
    assert!(ObuType::ObuPadding.filterable());
    assert!(ObuType::Reserved.filterable());
}

fn header_in_layers(temporal_id: u64, spatial_id: u64) -> ObuHeader {
    ObuHeader {
        obu_forbidden_bit: false,
        obu_type: ObuType::ObuFrame,
        obu_extension_flag: true,
        obu_has_size_field: false,
        obu_reserved_1bit: false,
        obu_extension_header: Some(ObuExtensionHeader {
            temporal_id,
            spatial_id,
            extension_header_reserved_3bits: 0,
        }),
    }
}

#[test]
fn in_operating_point_needs_both_layers() {
    // Temporal layers 0 and 1, spatial layer 0.
    let idc = 0b0001_0000_0011;
    assert!(header_in_layers(0, 0).in_operating_point(idc));
    assert!(header_in_layers(1, 0).in_operating_point(idc));
    assert!(!header_in_layers(2, 0).in_operating_point(idc));
    assert!(!header_in_layers(1, 1).in_operating_point(idc));
    assert!(header_in_layers(7, 3).in_operating_point(0b1000_1000_0000));
    assert!(!header_in_layers(7, 3).in_operating_point(0));
}

#[test]
fn in_operating_point_without_extension_uses_layer_zero() {
    let header = ObuHeader {
        obu_forbidden_bit: false,
        obu_type: ObuType::ObuFrame,
        obu_extension_flag: false,
        obu_has_size_field: false,
        obu_reserved_1bit: false,
        obu_extension_header: None,
    };
    assert!(header.in_operating_point(0b0001_0000_0001));
    assert!(!header.in_operating_point(0b0001_0000_0010));
    assert!(!header.in_operating_point(0b0010_0000_0001));
}
