use av1_obu::bits::bitstream::BitStream;
use av1_obu::error::Error;
use av1_obu::obu::color_config::ColorConfig;
/// Writes bits, most significant first, into bytes.
struct Bits {
    bytes: Vec<u8>,
    used: usize,
}

impl Bits {
    fn new() -> Bits {
        Bits { bytes: Vec::new(), used: 0 }
    }

    fn put(mut self, value: u64, n: u32) -> Bits {
        for i in (0..n).rev() {
            if self.used % 8 == 0 {
                self.bytes.push(0);
            }
            if (value >> i) & 1 == 1 {
                let last = self.bytes.len() - 1;
                self.bytes[last] |= 1 << (7 - self.used % 8);
            }
            self.used += 1;
        }
        self
    }

    fn flag(self, set: bool) -> Bits {
        self.put(set as u64, 1)
    }

    fn len(&self) -> usize {
        self.used
    }

    fn done(self) -> Vec<u8> {
        self.bytes
    }
}

fn decode(bits: Bits, seq_profile: u64) -> (Result<ColorConfig, Error>, u64, u64, usize) {
    let mut bs = BitStream::new(bits.done());
    let mut bit_depth = 77;
    let mut num_planes = 99;
    let r = ColorConfig::new(&mut bs, seq_profile, &mut bit_depth, &mut num_planes);
    (r, bit_depth, num_planes, bs.position())
}

#[test]
fn color_config_profile_0_has_eight_bits() {
    // high_bitdepth 0, mono_chrome 0, no description, range 1, separate_uv 1.
    let bits = Bits::new().flag(false).flag(false).flag(false).flag(true).put(2, 2).flag(true);
    let (r, bit_depth, num_planes, position) = decode(bits, 0);
    assert_eq!(
        Ok(ColorConfig {
            high_bitdepth: false,
            twelve_bit: false,
            mono_chrome: false,
            color_primaries: 2,
            transfer_characteristics: 2,
            matrix_coefficients: 2,
            color_range: true,
            subsampling_x: true,
            subsampling_y: true,
            chroma_sample_position: 2,
            separate_uv_delta_q: true,
        }),
        r
    );
    assert_eq!(8, bit_depth);
    assert_eq!(3, num_planes);
    assert_eq!(7, position);
}

#[test]
fn color_config_profile_0_high_bitdepth_has_ten_bits() {
    let bits = Bits::new().flag(true).flag(false).flag(false).flag(false).put(0, 2).flag(false);
    let (r, bit_depth, _, _) = decode(bits, 0);
    let config = r.unwrap();
    assert!(config.high_bitdepth);
    assert!(!config.twelve_bit);
    assert_eq!(10, bit_depth);
}

#[test]
fn color_config_profile_2_twelve_bit() {
    // high_bitdepth 1, twelve_bit 1, mono 0, no description, range 0,
    // subsampling_x 1, subsampling_y 1, position 1, separate_uv 0.
    let bits = Bits::new()
        .flag(true)
        .flag(true)
        .flag(false)
        .flag(false)
        .flag(false)
        .flag(true)
        .flag(true)
        .put(1, 2)
        .flag(false);
    let (r, bit_depth, num_planes, position) = decode(bits, 2);
    assert_eq!(
        Ok(ColorConfig {
            high_bitdepth: true,
            twelve_bit: true,
            mono_chrome: false,
            color_primaries: 2,
            transfer_characteristics: 2,
            matrix_coefficients: 2,
            color_range: false,
            subsampling_x: true,
            subsampling_y: true,
            chroma_sample_position: 1,
            separate_uv_delta_q: false,
        }),
        r
    );
    assert_eq!(12, bit_depth);
    assert_eq!(3, num_planes);
    assert_eq!(10, position);
}

#[test]
fn color_config_profile_2_twelve_bit_without_horizontal_subsampling() {
    // subsampling_x 0: subsampling_y is not read.
    let bits =
        Bits::new().flag(true).flag(true).flag(false).flag(false).flag(true).flag(false).flag(true);
    let (r, bit_depth, _, position) = decode(bits, 2);
    let config = r.unwrap();
    assert!(config.color_range);
    assert!(!config.subsampling_x);
    assert!(!config.subsampling_y);
    assert_eq!(0, config.chroma_sample_position);
    assert!(config.separate_uv_delta_q);
    assert_eq!(12, bit_depth);
    assert_eq!(7, position);
}

#[test]
fn color_config_profile_2_ten_bit_is_422() {
    // high_bitdepth 1, twelve_bit 0.
    let bits = Bits::new().flag(true).flag(false).flag(false).flag(false).flag(false).flag(true);
    let (r, bit_depth, _, position) = decode(bits, 2);
    let config = r.unwrap();
    assert!(config.subsampling_x);
    assert!(!config.subsampling_y);
    assert!(config.separate_uv_delta_q);
    assert_eq!(10, bit_depth);
    assert_eq!(6, position);
}

#[test]
fn color_config_profile_2_eight_bit() {
    let bits = Bits::new().flag(false).flag(false).flag(false).flag(false).flag(false);
    let (r, bit_depth, _, position) = decode(bits, 2);
    let config = r.unwrap();
    assert!(!config.twelve_bit);
    assert!(config.subsampling_x);
    assert!(!config.subsampling_y);
    assert_eq!(8, bit_depth);
    assert_eq!(5, position);
}

#[test]
fn color_config_profile_1_is_never_mono_chrome() {
    // high_bitdepth 0; mono_chrome is not read; description absent; range 1;
    // separate_uv 1.
    let bits = Bits::new().flag(false).flag(false).flag(true).flag(true);
    let (r, bit_depth, num_planes, position) = decode(bits, 1);
    let config = r.unwrap();
    assert!(!config.mono_chrome);
    assert!(config.color_range);
    assert!(!config.subsampling_x);
    assert!(!config.subsampling_y);
    assert!(config.separate_uv_delta_q);
    assert_eq!(8, bit_depth);
    assert_eq!(3, num_planes);
    assert_eq!(4, position);
}

#[test]
fn color_config_mono_chrome_has_one_plane() {
    // high_bitdepth 0, mono 1, description present: 9, 16, 9; range 1.
    let bits = Bits::new()
        .flag(false)
        .flag(true)
        .flag(true)
        .put(9, 8)
        .put(16, 8)
        .put(9, 8)
        .flag(true)
        .flag(true);
    let (r, bit_depth, num_planes, position) = decode(bits, 0);
    assert_eq!(
        Ok(ColorConfig {
            high_bitdepth: false,
            twelve_bit: false,
            mono_chrome: true,
            color_primaries: 9,
            transfer_characteristics: 16,
            matrix_coefficients: 9,
            color_range: true,
            subsampling_x: true,
            subsampling_y: true,
            chroma_sample_position: 0,
            separate_uv_delta_q: false,
        }),
        r
    );
    assert_eq!(8, bit_depth);
    assert_eq!(1, num_planes);
    assert_eq!(28, position);
}

#[test]
fn color_config_mono_chrome_in_srgb_colours_still_reads_the_range() {
    let bits =
        Bits::new().flag(false).flag(true).flag(true).put(1, 8).put(13, 8).put(0, 8).flag(false);
    let (r, _, num_planes, position) = decode(bits, 2);
    let config = r.unwrap();
    assert!(config.mono_chrome);
    assert!(!config.color_range);
    assert!(config.subsampling_x && config.subsampling_y);
    assert_eq!(1, num_planes);
    assert_eq!(28, position);
}

#[test]
fn color_config_srgb_is_full_range_444() {
    // BT.709 primaries, sRGB transfer, identity matrix; separate_uv 1.
    let bits =
        Bits::new().flag(false).flag(false).flag(true).put(1, 8).put(13, 8).put(0, 8).flag(true);
    let (r, bit_depth, num_planes, position) = decode(bits, 0);
    assert_eq!(
        Ok(ColorConfig {
            high_bitdepth: false,
            twelve_bit: false,
            mono_chrome: false,
            color_primaries: 1,
            transfer_characteristics: 13,
            matrix_coefficients: 0,
            color_range: true,
            subsampling_x: false,
            subsampling_y: false,
            chroma_sample_position: 0,
            separate_uv_delta_q: true,
        }),
        r
    );
    assert_eq!(8, bit_depth);
    assert_eq!(3, num_planes);
    assert_eq!(28, position);
}

#[test]
fn color_config_in_a_profile_above_2_keeps_the_bit_depth() {
    let bits = Bits::new().flag(true).flag(false).flag(false).flag(false).flag(false);
    let (r, bit_depth, num_planes, _) = decode(bits, 3);
    assert!(r.is_ok());
    assert_eq!(77, bit_depth);
    assert_eq!(3, num_planes);
}

#[test]
fn color_config_past_the_end_changes_nothing() {
    // high_bitdepth 0, mono_chrome 0, a description of 24 bits is announced,
    // and five bits are left.
    let mut short = BitStream::new(vec![0b0010_0000]);
    let mut bit_depth = 77;
    let mut num_planes = 99;
    let r = ColorConfig::new(&mut short, 0, &mut bit_depth, &mut num_planes);
    assert_eq!(Err(Error::EndOfStream), r);
    assert_eq!(77, bit_depth);
    assert_eq!(99, num_planes);
    let mut empty = BitStream::new(vec![]);
    assert_eq!(
        Err(Error::EndOfStream),
        ColorConfig::new(&mut empty, 0, &mut bit_depth, &mut num_planes)
    );
    assert_eq!(77, bit_depth);
    assert_eq!(99, num_planes);
}
