use av1_obu::bits::bitstream::BitStream;
use av1_obu::error::{Error, Feature};
use av1_obu::obu::obu_header::ObuType;
use av1_obu::obu::obu_sequence_header::ObuSequenceHeader;
use av1_obu::obu::open_bitstream_unit::{ObuPayload, OpenBitstreamUnit};
use av1_obu::state::State;
/// Writes bits, most significant first, into bytes.
struct Bits {
    bytes: Vec<u8>,
    used: usize,
}

impl Bits {
    fn new() -> Bits {
        Bits { bytes: Vec::new(), used: 0 }
    }

    fn put(mut self, value: u64, n: u32) -> Bits {
        for i in (0..n).rev() {
            if self.used % 8 == 0 {
                self.bytes.push(0);
            }
            if (value >> i) & 1 == 1 {
                let last = self.bytes.len() - 1;
                self.bytes[last] |= 1 << (7 - self.used % 8);
            }
            self.used += 1;
        }
        self
    }

    fn flag(self, set: bool) -> Bits {
        self.put(set as u64, 1)
    }

    fn len(&self) -> usize {
        self.used
    }

    fn done(self) -> Vec<u8> {
        self.bytes
    }
}

/// A reduced still picture header of profile 0: 34 bits.
fn reduced_header(bits: Bits) -> Bits {
    bits.put(0, 3)
        .flag(true)
        .flag(true)
        .put(3, 4)
        .put(2, 4)
        .put(0b1010, 4)
        .put(0b101, 3)
        .put(0b101, 3)
        .put(0b0110, 4)
        .put(0b0001, 4)
        .put(0, 2)
        .flag(false)
}

/// A sequence header OBU with a size field that gives `size` bytes.
fn sequence_obu(size: u64) -> Vec<u8> {
    let bits = Bits::new().put(0b0000_1010, 8).put(size, 8);
    let mut bytes = reduced_header(bits).done();
    while (bytes.len() as u64) < 2 + size {
        bytes.push(0);
    }
    bytes
}

#[test]
fn sequence_header_obu_with_size_field() {
    let mut bytes = sequence_obu(7);
    bytes.push(0xff);
    let mut bs = BitStream::new(bytes);
    let mut state = State::new();
    let unit = OpenBitstreamUnit::new(&mut bs, 9, &mut state, &None, None).unwrap().unwrap();
    assert_eq!(ObuType::ObuSequenceHeader, unit.header.obu_type);
    assert!(unit.header.obu_has_size_field);
    assert_eq!(7, unit.obu_size);
    match unit.payload {
        ObuPayload::SequenceHeader(sh) => {
            assert!(sh.reduced_still_picture_header);
            assert_eq!(10, sh.max_frame_width_minus_1);
        }
        ObuPayload::FrameHeader(_) => panic!("a frame header"),
    }
    // The cursor stands at the end of the OBU, after the bits that pad it.
    assert_eq!(72, bs.position());
    assert_eq!(8, state.bit_depth);
    assert_eq!(1, bs.leb_128_bytes());
}

#[test]
fn sequence_header_obu_without_size_field() {
    let bits = Bits::new().put(0b0000_1000, 8);
    let mut bytes = reduced_header(bits).done();
    assert_eq!(6, bytes.len());
    bytes.push(0);
    bytes.push(0xff);
    let mut bs = BitStream::new(bytes);
    let mut state = State::new();
    let unit = OpenBitstreamUnit::new(&mut bs, 7, &mut state, &None, None).unwrap().unwrap();
    assert!(!unit.header.obu_has_size_field);
    assert_eq!(6, unit.obu_size);
    assert_eq!(56, bs.position());
    assert_eq!(0, bs.leb_128_bytes());
}

#[test]
fn obu_with_another_size_than_is_left() {
    let mut bs = BitStream::new(sequence_obu(7));
    let mut state = State::new();
    let before = state;
    let r = OpenBitstreamUnit::new(&mut bs, 10, &mut state, &None, None);
    assert_eq!(Err(Error::SizeMismatch), r);
    assert_eq!(before, state);
    assert_eq!(16, bs.position());

    let mut bs = BitStream::new(sequence_obu(7));
    let r = OpenBitstreamUnit::new(&mut bs, 8, &mut state, &None, None);
    assert_eq!(Err(Error::SizeMismatch), r);
}

#[test]
fn obu_without_room_for_its_header() {
    // No size field and an extension: two bytes of header, one byte left.
    let mut bs = BitStream::new(vec![0b0001_1100, 0x00, 0x00]);
    let mut state = State::new();
    let r = OpenBitstreamUnit::new(&mut bs, 1, &mut state, &None, None);
    assert_eq!(Err(Error::SizeMismatch), r);
    let mut bs = BitStream::new(vec![0b0001_1000, 0x00]);
    let r = OpenBitstreamUnit::new(&mut bs, 0, &mut state, &None, None);
    assert_eq!(Err(Error::SizeMismatch), r);
}

#[test]
fn obu_whose_payload_is_longer_than_its_size() {
    // The sequence header takes 34 bits, and the OBU gives it 4 bytes.
    let bits = Bits::new().put(0b0000_1010, 8).put(4, 8);
    let mut bs = BitStream::new(reduced_header(bits).done());
    let mut state = State::new();
    let r = OpenBitstreamUnit::new(&mut bs, 6, &mut state, &None, None);
    assert_eq!(Err(Error::SizeMismatch), r);
    assert_eq!(16 + 34, bs.position());
}

#[test]
fn obu_whose_payload_is_not_in_the_buffer() {
    let mut bytes = sequence_obu(7);
    bytes.truncate(8);
    let mut bs = BitStream::new(bytes);
    let mut state = State::new();
    let before = state;
    let r = OpenBitstreamUnit::new(&mut bs, 9, &mut state, &None, None);
    assert_eq!(Err(Error::EndOfStream), r);
    assert_eq!(before, state);
    let mut empty = BitStream::new(vec![]);
    assert_eq!(
        Err(Error::EndOfStream),
        OpenBitstreamUnit::new(&mut empty, 1, &mut state, &None, None)
    );
}

#[test]
fn obu_with_a_size_that_does_not_end() {
    let mut bytes = vec![0b0000_1010];
    bytes.extend_from_slice(&[0x80, 0x80, 0x80, 0x80, 0x80, 0x80, 0x80, 0x80, 0x00]);
    let mut bs = BitStream::new(bytes);
    let mut state = State::new();
    let r = OpenBitstreamUnit::new(&mut bs, 9, &mut state, &None, None);
    assert_eq!(Err(Error::MalformedLength), r);
    assert_eq!(72, bs.position());
    assert!(!bs.leb_128_terminated());
}

#[test]
fn frame_header_obu_without_a_sequence_header() {
    let mut bs = BitStream::new(vec![0b0001_1000, 0xff]);
    let mut state = State::new();
    let r = OpenBitstreamUnit::new(&mut bs, 2, &mut state, &None, None);
    assert_eq!(Err(Error::MissingSequenceHeader), r);
    assert_eq!(8, bs.position());
    // A frame OBU carries a frame header too.
    let mut bs = BitStream::new(vec![0b0011_0000, 0xff]);
    let r = OpenBitstreamUnit::new(&mut bs, 2, &mut state, &None, None);
    assert_eq!(Err(Error::MissingSequenceHeader), r);
}

#[test]
fn frame_header_obu_with_a_sequence_header() {
    // show_existing_frame 1, slot 3: the frame would have to be wrapped up.
    let mut bs = BitStream::new(vec![0b0001_1000, 0b1011_0000]);
    let mut state = State::new();
    let sh = Some(ObuSequenceHeader::empty_header());
    let r = OpenBitstreamUnit::new(&mut bs, 2, &mut state, &sh, None);
    assert_eq!(Err(Error::UnimplementedFeature(Feature::DecodeFrameWrapup)), r);
    assert!(state.seen_frame_header);
    assert_eq!(12, bs.position());
}

#[test]
fn obu_of_a_type_that_is_not_decoded() {
    let types = [
        (0u8, ObuType::Reserved),
        (2, ObuType::ObuTemporalDelimiter),
        (4, ObuType::ObuTileGroup),
        (5, ObuType::ObuMetadata),
        (7, ObuType::ObuRedundantFrameHeader),
        (8, ObuType::ObuTileList),
        (9, ObuType::Reserved),
        (15, ObuType::ObuPadding),
    ];
    for (code, obu_type) in types {
        let mut bs = BitStream::new(vec![code << 3, 0xff]);
        let mut state = State::new();
        let r = OpenBitstreamUnit::new(&mut bs, 2, &mut state, &None, None);
        assert_eq!(Err(Error::UnimplementedFeature(Feature::Payload(obu_type))), r);
        assert_eq!(8, bs.position());
    }
}

/// An OBU of type `code` in the layers given, with a size field that gives
/// three bytes of payload.
fn layered_obu(code: u8, temporal_id: u8, spatial_id: u8) -> Vec<u8> {
    vec![code << 3 | 0b110, temporal_id << 5 | spatial_id << 3, 3, 0xaa, 0xbb, 0xcc, 0x55]
}

#[test]
fn obu_outside_the_operating_point_is_dropped() {
    // The session decodes temporal layer 0 of spatial layer 0.
    let mut state = State::new();
    state.operating_point_idc = 0x101;
    let before = state;
    // A tile group of temporal layer 1.
    let mut bs = BitStream::new(layered_obu(4, 1, 0));
    let r = OpenBitstreamUnit::new(&mut bs, 6, &mut state, &None, None);
    assert_eq!(Ok(None), r);
    assert_eq!(48, bs.position());
    assert_eq!(Ok(0x55), bs.f(8));
    assert_eq!(before, state);
    // A frame header of spatial layer 1.
    let mut bs = BitStream::new(layered_obu(3, 0, 1));
    let r = OpenBitstreamUnit::new(&mut bs, 6, &mut state, &None, None);
    assert_eq!(Ok(None), r);
    assert_eq!(48, bs.position());
    // Padding of neither layer.
    let mut bs = BitStream::new(layered_obu(15, 7, 3));
    assert_eq!(Ok(None), OpenBitstreamUnit::new(&mut bs, 6, &mut state, &None, None));
}

#[test]
fn obu_inside_the_operating_point_is_not_dropped() {
    let mut state = State::new();
    state.operating_point_idc = 0x101;
    let mut bs = BitStream::new(layered_obu(4, 0, 0));
    let r = OpenBitstreamUnit::new(&mut bs, 6, &mut state, &None, None);
    assert_eq!(Err(Error::UnimplementedFeature(Feature::Payload(ObuType::ObuTileGroup))), r);
}

#[test]
fn obu_is_not_dropped_without_an_operating_point_mask() {
    let mut state = State::new();
    let mut bs = BitStream::new(layered_obu(4, 1, 0));
    let r = OpenBitstreamUnit::new(&mut bs, 6, &mut state, &None, None);
    assert_eq!(Err(Error::UnimplementedFeature(Feature::Payload(ObuType::ObuTileGroup))), r);
}

#[test]
fn obu_without_extension_is_not_dropped() {
    let mut state = State::new();
    state.operating_point_idc = 0x202;
    let mut bs = BitStream::new(vec![4 << 3 | 0b010, 1, 0xaa]);
    let r = OpenBitstreamUnit::new(&mut bs, 3, &mut state, &None, None);
    assert_eq!(Err(Error::UnimplementedFeature(Feature::Payload(ObuType::ObuTileGroup))), r);
}

#[test]
fn sequence_header_and_temporal_delimiter_are_never_dropped() {
    let mut state = State::new();
    state.operating_point_idc = 0x101;
    let mut bs = BitStream::new(layered_obu(2, 1, 1));
    let r = OpenBitstreamUnit::new(&mut bs, 6, &mut state, &None, None);
    assert_eq!(
        Err(Error::UnimplementedFeature(Feature::Payload(ObuType::ObuTemporalDelimiter))),
        r
    );
    // A sequence header in layer 1 is decoded: here its three bytes are too
    // few for it.
    let mut bs = BitStream::new(layered_obu(1, 1, 1));
    let r = OpenBitstreamUnit::new(&mut bs, 6, &mut state, &None, None);
    assert!(r.is_err());
    assert_ne!(Ok(None), r);
}

#[test]
fn drop_obu_skips_bytes() {
    let mut bs = BitStream::new(vec![1, 2, 3, 4]);
    assert_eq!(Ok(1), bs.f(8));
    assert_eq!(Ok(()), OpenBitstreamUnit::drop_obu(&mut bs, 2));
    assert_eq!(24, bs.position());
    assert_eq!(Err(Error::EndOfStream), OpenBitstreamUnit::drop_obu(&mut bs, 2));
    assert_eq!(24, bs.position());
    assert_eq!(Err(Error::EndOfStream), OpenBitstreamUnit::drop_obu(&mut bs, u64::MAX));
    assert_eq!(Ok(()), OpenBitstreamUnit::drop_obu(&mut bs, 0));
}
