use av1_obu::bits::bitstream::BitStream;
use av1_obu::error::{Error, Feature};
use av1_obu::obu::obu_header::ObuType;
use av1_obu::parser::Parser;
/// Writes bits, most significant first, into bytes.
struct Bits {
    bytes: Vec<u8>,
    used: usize,
}

impl Bits {
    fn new() -> Bits {
        Bits { bytes: Vec::new(), used: 0 }
    }

    fn put(mut self, value: u64, n: u32) -> Bits {
        for i in (0..n).rev() {
            if self.used % 8 == 0 {
                self.bytes.push(0);
            }
            if (value >> i) & 1 == 1 {
                let last = self.bytes.len() - 1;
                self.bytes[last] |= 1 << (7 - self.used % 8);
            }
            self.used += 1;
        }
        self
    }

    fn flag(self, set: bool) -> Bits {
        self.put(set as u64, 1)
    }

    fn len(&self) -> usize {
        self.used
    }

    fn done(self) -> Vec<u8> {
        self.bytes
    }
}

/// A sequence header OBU of nine bytes: a header byte, a size field that
/// gives seven bytes, and a reduced still picture header whose frames are
/// at most `width + 1` wide.
fn sequence_obu(width: u64) -> Vec<u8> {
    let bits = Bits::new()
        .put(0b0000_1010, 8)
        .put(7, 8)
        .put(0, 3)
        .flag(true)
        .flag(true)
        .put(3, 4)
        .put(2, 4)
        .put(width, 4)
        .put(0b101, 3)
        .put(0b101, 3)
        .put(0b0110, 4)
        .put(0b0001, 4)
        .put(0, 2)
        .flag(false);
    assert!(bits.len() <= 72);
    let mut bytes = bits.done();
    bytes.resize(9, 0);
    bytes
}

/// A frame unit that holds the OBUs given, each behind its length.
fn frame_unit(obus: &[Vec<u8>]) -> Vec<u8> {
    let mut bytes = Vec::new();
    for obu in obus {
        bytes.push(obu.len() as u8);
        bytes.extend_from_slice(obu);
    }
    bytes
}

/// A temporal unit that holds the frame units given, each behind its size.
fn temporal_unit(units: &[Vec<u8>]) -> Vec<u8> {
    frame_unit(units)
}

#[test]
fn frame_unit_of_two_sequence_headers() {
    let bytes = frame_unit(&[sequence_obu(10), sequence_obu(12)]);
    assert_eq!(20, bytes.len());
    let mut bs = BitStream::new(bytes);
    let mut parser = Parser::new();
    assert_eq!(Ok(()), parser.frame_unit(&mut bs, 20));
    assert_eq!(160, bs.position());
    assert_eq!(12, parser.sequence_header.unwrap().max_frame_width_minus_1);
    assert_eq!(8, parser.state.bit_depth);
    assert_eq!(None, parser.frame_id);
}

#[test]
fn frame_unit_of_no_bytes() {
    let mut bs = BitStream::new(vec![0xff]);
    let mut parser = Parser::new();
    assert_eq!(Ok(()), parser.frame_unit(&mut bs, 0));
    assert_eq!(0, bs.position());
    assert_eq!(Parser::new(), parser);
    assert_eq!(Parser::default(), parser);
}

#[test]
fn temporal_unit_of_two_frame_units() {
    let first = frame_unit(&[sequence_obu(10)]);
    let second = frame_unit(&[sequence_obu(11), sequence_obu(9)]);
    let mut bytes = temporal_unit(&[first, second]);
    // 1 + 10 bytes and 1 + 20 bytes.
    assert_eq!(32, bytes.len());
    bytes.push(0xff);
    let mut bs = BitStream::new(bytes);
    let mut parser = Parser::new();
    assert_eq!(Ok(()), parser.temporal_unit(&mut bs, 32));
    assert_eq!(256, bs.position());
    assert_eq!(9, parser.sequence_header.unwrap().max_frame_width_minus_1);
}

#[test]
fn temporal_unit_with_a_frame_unit_that_is_too_long() {
    let first = frame_unit(&[sequence_obu(10)]);
    let bytes = temporal_unit(&[first]);
    assert_eq!(11, bytes.len());
    let mut bs = BitStream::new(bytes);
    let mut parser = Parser::new();
    // The frame unit says 10 bytes; with its length that is one more than
    // the temporal unit has.
    assert_eq!(Err(Error::SizeMismatch), parser.temporal_unit(&mut bs, 10));
    assert_eq!(8, bs.position());
    assert_eq!(Parser::new(), parser);
}

#[test]
fn temporal_unit_with_bytes_left_over() {
    let first = frame_unit(&[sequence_obu(10)]);
    let mut bytes = temporal_unit(&[first]);
    bytes.push(0);
    bytes.push(0);
    let mut bs = BitStream::new(bytes);
    let mut parser = Parser::new();
    // Two bytes are left after the frame unit: each is a frame unit of no
    // bytes.
    assert_eq!(Ok(()), parser.temporal_unit(&mut bs, 13));
    assert_eq!(104, bs.position());
}

#[test]
fn frame_unit_with_an_obu_that_is_too_long() {
    let bytes = frame_unit(&[sequence_obu(10)]);
    let mut bs = BitStream::new(bytes);
    let mut parser = Parser::new();
    assert_eq!(Err(Error::SizeMismatch), parser.frame_unit(&mut bs, 9));
    assert_eq!(8, bs.position());
}

#[test]
fn frame_unit_with_an_obu_of_another_size_than_its_length() {
    // The length says 10 bytes, and the OBU takes 9.
    let mut bytes = vec![10];
    bytes.extend_from_slice(&sequence_obu(10));
    bytes.push(0);
    let mut bs = BitStream::new(bytes);
    let mut parser = Parser::new();
    assert_eq!(Err(Error::SizeMismatch), parser.frame_unit(&mut bs, 11));
    assert_eq!(None, parser.sequence_header);
}

#[test]
fn frame_unit_with_an_obu_of_no_bytes() {
    let mut bs = BitStream::new(vec![0, 0]);
    let mut parser = Parser::new();
    // An OBU needs a byte for its header.
    assert_eq!(Err(Error::SizeMismatch), parser.frame_unit(&mut bs, 1));
}

#[test]
fn frame_unit_past_the_end() {
    let mut bytes = frame_unit(&[sequence_obu(10)]);
    bytes.truncate(6);
    let mut bs = BitStream::new(bytes);
    let mut parser = Parser::new();
    assert_eq!(Err(Error::EndOfStream), parser.frame_unit(&mut bs, 10));
    let mut empty = BitStream::new(vec![]);
    assert_eq!(Err(Error::EndOfStream), parser.frame_unit(&mut empty, 1));
    assert_eq!(Err(Error::EndOfStream), parser.temporal_unit(&mut empty, 1));
}

#[test]
fn frame_unit_with_a_length_that_does_not_end() {
    let mut bs = BitStream::new(vec![0x80; 9]);
    let mut parser = Parser::new();
    assert_eq!(Err(Error::MalformedLength), parser.frame_unit(&mut bs, 100));
    assert_eq!(64, bs.position());
    let mut bs = BitStream::new(vec![0xff; 9]);
    assert_eq!(Err(Error::MalformedLength), parser.temporal_unit(&mut bs, 100));
    let mut bs = BitStream::new(vec![0xff; 9]);
    assert_eq!(Err(Error::MalformedLength), parser.bitstream(&mut bs));
}

#[test]
fn frame_unit_with_a_temporal_delimiter_stops() {
    let bytes = frame_unit(&[vec![0b0001_0010, 0]]);
    let mut bs = BitStream::new(bytes);
    let mut parser = Parser::new();
    assert_eq!(
        Err(Error::UnimplementedFeature(Feature::Payload(ObuType::ObuTemporalDelimiter))),
        parser.frame_unit(&mut bs, 3)
    );
}

#[test]
fn frame_unit_with_a_frame_header_after_the_sequence_header() {
    // A frame header OBU of one byte of payload. Under the reduced header
    // of the sequence it is a key frame, whose size is not decoded here.
    let frame = vec![0b0001_1010, 1, 0b1001_0000];
    let bytes = frame_unit(&[sequence_obu(10), frame]);
    let mut bs = BitStream::new(bytes);
    let mut parser = Parser::new();
    assert_eq!(
        Err(Error::UnimplementedFeature(Feature::FrameSize)),
        parser.frame_unit(&mut bs, 14)
    );
    assert!(parser.sequence_header.is_some());
    assert!(parser.state.seen_frame_header);
    assert!(parser.state.frame_is_intra);
    assert_eq!(8, parser.state.bit_depth);
    // disable_cdf_update and allow_screen_content_tools were read.
    assert_eq!(8 * 13 + 2, bs.position());

    let frame = vec![0b0001_1010, 1, 0b1001_0000];
    let bytes = frame_unit(&[frame]);
    let mut bs = BitStream::new(bytes);
    let mut parser = Parser::new();
    assert_eq!(Err(Error::MissingSequenceHeader), parser.frame_unit(&mut bs, 4));
}

#[test]
fn frame_unit_skips_what_the_operating_point_leaves_out() {
    // A tile group of temporal layer 1, then a sequence header.
    let dropped = vec![4 << 3 | 0b110, 1 << 5, 2, 0xaa, 0xbb];
    let bytes = frame_unit(&[dropped, sequence_obu(10)]);
    let mut bs = BitStream::new(bytes);
    let mut parser = Parser::new();
    parser.state.operating_point_idc = 0x101;
    assert_eq!(Ok(()), parser.frame_unit(&mut bs, 16));
    assert_eq!(128, bs.position());
    assert!(parser.sequence_header.is_some());
    // The sequence header has one operating point, whose mask is 0.
    assert_eq!(0, parser.state.operating_point_idc);
}

#[test]
fn bitstream_of_two_temporal_units() {
    let first = temporal_unit(&[frame_unit(&[sequence_obu(10)])]);
    let second = temporal_unit(&[frame_unit(&[sequence_obu(3)]), frame_unit(&[sequence_obu(4)])]);
    let mut bytes = Vec::new();
    bytes.push(first.len() as u8);
    bytes.extend_from_slice(&first);
    bytes.push(second.len() as u8);
    bytes.extend_from_slice(&second);
    let len = bytes.len();
    assert_eq!(1 + 11 + 1 + 22, len);
    let mut bs = BitStream::new(bytes);
    let mut parser = Parser::new();
    assert_eq!(Ok(()), parser.bitstream(&mut bs));
    assert_eq!(8 * len, bs.position());
    assert!(!bs.more_data_in_bitstream());
    assert_eq!(4, parser.sequence_header.unwrap().max_frame_width_minus_1);
}

#[test]
fn bitstream_of_no_bytes() {
    let mut bs = BitStream::new(vec![]);
    let mut parser = Parser::new();
    assert_eq!(Ok(()), parser.bitstream(&mut bs));
    assert_eq!(Parser::new(), parser);
}

#[test]
fn bitstream_that_ends_within_a_temporal_unit() {
    let first = temporal_unit(&[frame_unit(&[sequence_obu(10)])]);
    let mut bytes = vec![first.len() as u8 + 5];
    bytes.extend_from_slice(&first);
    let mut bs = BitStream::new(bytes);
    let mut parser = Parser::new();
    assert_eq!(Err(Error::EndOfStream), parser.bitstream(&mut bs));
    // The frame unit that was there has been parsed.
    assert!(parser.sequence_header.is_some());
}

#[test]
fn next_temporal_unit_parses_one_unit() {
    let first = temporal_unit(&[frame_unit(&[sequence_obu(10)])]);
    let second = temporal_unit(&[frame_unit(&[sequence_obu(3)])]);
    let mut bytes = vec![first.len() as u8];
    bytes.extend_from_slice(&first);
    bytes.push(second.len() as u8);
    bytes.extend_from_slice(&second);
    let mut bs = BitStream::new(bytes);
    let mut parser = Parser::new();
    assert_eq!(Ok(()), parser.next_temporal_unit(&mut bs));
    assert_eq!(8 * 12, bs.position());
    assert_eq!(10, parser.sequence_header.unwrap().max_frame_width_minus_1);
    assert!(bs.more_data_in_bitstream());
    assert_eq!(Ok(()), parser.next_temporal_unit(&mut bs));
    assert_eq!(3, parser.sequence_header.unwrap().max_frame_width_minus_1);
    assert!(!bs.more_data_in_bitstream());
    assert_eq!(Err(Error::EndOfStream), parser.next_temporal_unit(&mut bs));
}

#[test]
fn next_temporal_unit_of_no_bytes() {
    let mut bs = BitStream::new(vec![0, 0xff]);
    let mut parser = Parser::new();
    assert_eq!(Ok(()), parser.next_temporal_unit(&mut bs));
    assert_eq!(8, bs.position());
    assert_eq!(Parser::new(), parser);
}
