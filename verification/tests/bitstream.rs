use av1_obu::bits::bitstream::BitStream;
use av1_obu::error::Error;

#[test]
fn read_bit() {
    let mut bs = BitStream::new(vec![3, 5]);

    assert_eq!(Ok(0), bs.read_bit());
    assert_eq!(Ok(0), bs.read_bit());
    assert_eq!(Ok(0), bs.read_bit());
    assert_eq!(Ok(0), bs.read_bit());
    assert_eq!(Ok(0), bs.read_bit());
    assert_eq!(Ok(0), bs.read_bit());
    assert_eq!(Ok(1), bs.read_bit());
    assert_eq!(Ok(1), bs.read_bit());

    assert_eq!(Ok(0), bs.read_bit());
    assert_eq!(Ok(0), bs.read_bit());
    assert_eq!(Ok(0), bs.read_bit());
    assert_eq!(Ok(0), bs.read_bit());
    assert_eq!(Ok(0), bs.read_bit());
    assert_eq!(Ok(1), bs.read_bit());
    assert_eq!(Ok(0), bs.read_bit());
    assert_eq!(Ok(1), bs.read_bit());
}

#[test]
fn f() {
    let mut bs = BitStream::new(vec![5, 6]);

    assert_eq!(Ok(5), bs.f(8));
    assert_eq!(Ok(6), bs.f(8));
}

#[test]
fn f_more_than_one_byte() {
    let mut bs = BitStream::new(vec![5, 6]);

    assert_eq!(Ok(1286), bs.f(16));
}

#[test]
fn read_bit_past_the_end() {
    let mut bs = BitStream::new(vec![0x80]);
    assert_eq!(Ok(1), bs.read_bit());
    for _ in 0..7 {
        assert_eq!(Ok(0), bs.read_bit());
    }
    assert_eq!(Err(Error::EndOfStream), bs.read_bit());
    assert_eq!(8, bs.position());
}

#[test]
fn f_of_no_bits_is_zero() {
    let mut bs = BitStream::new(vec![0xff]);
    assert_eq!(Ok(0), bs.f(0));
    assert_eq!(0, bs.position());
    let mut empty = BitStream::new(vec![]);
    assert_eq!(Ok(0), empty.f(0));
    assert_eq!(Err(Error::EndOfStream), empty.f(1));
}

#[test]
fn f_of_64_bits() {
    let mut bs = BitStream::new(vec![0x01, 0x23, 0x45, 0x67, 0x89, 0xab, 0xcd, 0xef, 0xff]);
    assert_eq!(Ok(0x0123_4567_89ab_cdef), bs.f(64));
    assert_eq!(64, bs.position());
    let mut ones = BitStream::new(vec![0xff; 8]);
    assert_eq!(Ok(u64::MAX), ones.f(64));
}

#[test]
fn f_across_bytes_from_the_middle_of_a_byte() {
    // 1011 0110 0101 0101: after 3 bits, the next 7 bits are 1 0110 01.
    let mut bs = BitStream::new(vec![0b1011_0110, 0b0101_0101]);
    assert_eq!(Ok(0b101), bs.f(3));
    assert_eq!(Ok(0b1_0110_01), bs.f(7));
    assert_eq!(10, bs.position());
    assert_eq!(Ok(0b01_0101), bs.f(6));
    assert_eq!(16, bs.position());
}

#[test]
fn f_past_the_end_leaves_the_cursor() {
    let mut bs = BitStream::new(vec![0xaa, 0xbb]);
    assert_eq!(Ok(0xa), bs.f(4));
    assert_eq!(Err(Error::EndOfStream), bs.f(13));
    assert_eq!(4, bs.position());
    assert_eq!(Ok(0xabb), bs.f(12));
    assert!(!bs.more_data_in_bitstream());
}

#[test]
fn flag_reads_one_bit() {
    let mut bs = BitStream::new(vec![0b1010_0000]);
    assert_eq!(Ok(true), bs.flag());
    assert_eq!(Ok(false), bs.flag());
    assert_eq!(Ok(true), bs.flag());
    assert_eq!(3, bs.position());
}

#[test]
fn skip_moves_the_cursor() {
    let mut bs = BitStream::new(vec![0x00, 0x0f, 0xf0]);
    assert_eq!(Ok(()), bs.skip(12));
    assert_eq!(12, bs.position());
    assert_eq!(Ok(0xff), bs.f(8));
    assert_eq!(Err(Error::EndOfStream), bs.skip(5));
    assert_eq!(20, bs.position());
    assert_eq!(Ok(()), bs.skip(4));
    assert_eq!(24, bs.bit_len());
    assert!(!bs.more_data_in_bitstream());
}

#[test]
fn leb128_of_one_byte() {
    let mut bs = BitStream::new(vec![0x7f, 0x00]);
    assert_eq!(Ok(127), bs.leb128());
    assert_eq!(1, bs.leb_128_bytes());
    assert!(bs.leb_128_terminated());
    assert_eq!(8, bs.position());
    assert_eq!(Ok(0), bs.leb128());
    assert_eq!(1, bs.leb_128_bytes());
}

#[test]
fn leb128_of_three_bytes() {
    // 624485 = 0x98765 is written as e5 8e 26.
    let mut bs = BitStream::new(vec![0xe5, 0x8e, 0x26, 0xff]);
    assert_eq!(Ok(624485), bs.leb128());
    assert_eq!(3, bs.leb_128_bytes());
    assert!(bs.leb_128_terminated());
    assert_eq!(24, bs.position());
}

#[test]
fn leb128_stops_after_eight_bytes() {
    let mut bs = BitStream::new(vec![0xff, 0xff, 0xff, 0xff, 0xff, 0xff, 0xff, 0x7f, 0x01]);
    assert_eq!(Ok((1u64 << 56) - 1), bs.leb128());
    assert_eq!(8, bs.leb_128_bytes());
    assert!(bs.leb_128_terminated());

    let mut over = BitStream::new(vec![0x80, 0x80, 0x80, 0x80, 0x80, 0x80, 0x80, 0x81, 0x01]);
    assert_eq!(Ok(1u64 << 49), over.leb128());
    assert_eq!(8, over.leb_128_bytes());
    assert!(!over.leb_128_terminated());
    assert_eq!(64, over.position());
}

#[test]
fn leb128_from_the_middle_of_a_byte() {
    // Four bits, then the LEB128 bytes 0x85 0x01 = 133, shifted by four bits.
    let mut bs = BitStream::new(vec![0xf8, 0x50, 0x1f]);
    assert_eq!(Ok(0xf), bs.f(4));
    assert_eq!(Ok(133), bs.leb128());
    assert_eq!(2, bs.leb_128_bytes());
    assert_eq!(20, bs.position());
}

#[test]
fn leb128_past_the_end_leaves_the_stream() {
    let mut bs = BitStream::new(vec![0x05, 0x80, 0x80]);
    assert_eq!(Ok(5), bs.leb128());
    assert_eq!(Err(Error::EndOfStream), bs.leb128());
    assert_eq!(8, bs.position());
    assert_eq!(1, bs.leb_128_bytes());
    assert!(bs.leb_128_terminated());
}

fn leb128_encode(mut v: u64) -> Vec<u8> {
    let mut out = Vec::new();
    loop {
        let low = (v & 0x7f) as u8;
        v >>= 7;
        if v == 0 {
            out.push(low);
            return out;
        }
        out.push(low | 0x80);
    }
}

#[test]
fn leb128_reads_back_what_was_encoded() {
    let values = [
        0u64,
        1,
        127,
        128,
        300,
        16383,
        16384,
        0xdead_beef,
        (1 << 49) - 1,
        1 << 49,
        (1 << 56) - 1,
    ];
    for v in values {
        let mut bytes = vec![0xab];
        let code = leb128_encode(v);
        bytes.extend_from_slice(&code);
        bytes.push(0xcd);
        let mut bs = BitStream::new(bytes);
        assert_eq!(Ok(0xab), bs.f(8));
        assert_eq!(Ok(v), bs.leb128());
        assert_eq!(code.len() as u64, bs.leb_128_bytes());
        assert!(code.len() >= 1 && code.len() <= 8);
        assert!(bs.leb_128_terminated());
        assert_eq!(Ok(0xcd), bs.f(8));
    }
}

#[test]
fn uvlc_without_zeros_is_zero() {
    let mut bs = BitStream::new(vec![0b1000_0000]);
    assert_eq!(Ok(0), bs.uvlc());
    assert_eq!(1, bs.position());
}

#[test]
fn uvlc_with_three_zeros() {
    // 000 1 101: 2^3 - 1 + 5 = 12.
    let mut bs = BitStream::new(vec![0b0001_1010]);
    assert_eq!(Ok(12), bs.uvlc());
    assert_eq!(7, bs.position());
    // 0 1 1: 2^1 - 1 + 1 = 2, after one bit that is skipped.
    let mut other = BitStream::new(vec![0b1011_0000]);
    assert_eq!(Ok(true), other.flag());
    assert_eq!(Ok(2), other.uvlc());
    assert_eq!(4, other.position());
}

#[test]
fn uvlc_with_31_zeros() {
    // 31 zeros, a one, and 31 ones: 2^31 - 1 + (2^31 - 1).
    let mut bytes = vec![0x00, 0x00, 0x00, 0x01];
    bytes.extend_from_slice(&[0xff, 0xff, 0xff, 0xfe]);
    let mut bs = BitStream::new(bytes);
    assert_eq!(Ok(0xffff_fffe), bs.uvlc());
    assert_eq!(63, bs.position());
}

#[test]
fn uvlc_with_32_zeros_is_the_sentinel() {
    let mut bs = BitStream::new(vec![0x00, 0x00, 0x00, 0x00, 0x80, 0xff]);
    assert_eq!(Ok(0xffff_ffff), bs.uvlc());
    assert_eq!(33, bs.position());
    let mut longer = BitStream::new(vec![0x00, 0x00, 0x00, 0x00, 0x00, 0x01, 0xff]);
    assert_eq!(Ok(0xffff_ffff), longer.uvlc());
    assert_eq!(48, longer.position());
}

#[test]
fn uvlc_past_the_end_leaves_the_cursor() {
    let mut zeros = BitStream::new(vec![0x00, 0x00]);
    assert_eq!(Err(Error::EndOfStream), zeros.uvlc());
    assert_eq!(0, zeros.position());
    // Five zeros and a one, but only two bits of the five that should follow.
    let mut short = BitStream::new(vec![0b0000_0111]);
    assert_eq!(Err(Error::EndOfStream), short.uvlc());
    assert_eq!(0, short.position());
}
