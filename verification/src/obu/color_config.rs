//! The colour configuration of a sequence.

use crate::bits::bitstream::{field, flag, width_if, BitStream};
use crate::error::Error;
use vstd::prelude::*;

verus! {

/// The colour primaries of BT.709.
pub const CP_BT_709: u64 = 1;

/// Colour primaries that the bitstream does not specify.
pub const CP_UNSPECIFIED: u64 = 2;

/// Transfer characteristics that the bitstream does not specify.
pub const TC_UNSPECIFIED: u64 = 2;

/// The transfer characteristics of sRGB.
pub const TC_SRGB: u64 = 13;

/// The identity matrix.
pub const MC_IDENTITY: u64 = 0;

/// Matrix coefficients that the bitstream does not specify.
pub const MC_UNSPECIFIED: u64 = 2;

/// A position of the chroma samples that is not known.
pub const CSP_UNKNOWN: u64 = 0;

/// How the samples of a sequence are to be read as colours.
#[derive(Debug, Clone, Copy, PartialEq, Eq, Structural)]
pub struct ColorConfig {
    pub high_bitdepth: bool,
    pub twelve_bit: bool,
    pub mono_chrome: bool,
    pub color_primaries: u64,
    pub transfer_characteristics: u64,
    pub matrix_coefficients: u64,
    pub color_range: bool,
    pub subsampling_x: bool,
    pub subsampling_y: bool,
    pub chroma_sample_position: u64,
    pub separate_uv_delta_q: bool,
}

/// A colour configuration as the bitstream writes it, with what follows
/// from it for the session.
pub struct ColorLayout {
    /// The position after the configuration.
    pub end: int,
    pub config: ColorConfig,
    pub bit_depth: u64,
    pub num_planes: u64,
}

/// The bit depth of a sequence as the bitstream writes it from bit `pos`
/// on: `high_bitdepth`, `twelve_bit`, the bit depth that follows from them,
/// and the position after them. In a profile above 2 the bit depth stays
/// `bit_depth`.
pub open spec fn depth_at(bytes: Seq<u8>, pos: int, seq_profile: u64, bit_depth: u64) -> (
    bool,
    bool,
    u64,
    int,
) {
    let high_bitdepth = flag(bytes, pos);
    let reads_twelve = seq_profile == 2 && high_bitdepth;
    let twelve_bit = reads_twelve && flag(bytes, pos + 1);
    let depth: u64 = if reads_twelve {
        if twelve_bit {
            12
        } else {
            10
        }
    } else if seq_profile <= 2 {
        if high_bitdepth {
            10
        } else {
            8
        }
    } else {
        bit_depth
    };
    (high_bitdepth, twelve_bit, depth, pos + 1 + width_if(reads_twelve, 1))
}

/// The colour description from bit `pos` on: primaries, transfer
/// characteristics and matrix coefficients, each unspecified unless a flag
/// says that they are given, and the position after them.
pub open spec fn description_at(bytes: Seq<u8>, pos: int) -> (u64, u64, u64, int) {
    if flag(bytes, pos) {
        (field(bytes, pos + 1, 8), field(bytes, pos + 9, 8), field(bytes, pos + 17, 8), pos + 25)
    } else {
        (CP_UNSPECIFIED, TC_UNSPECIFIED, MC_UNSPECIFIED, pos + 1)
    }
}

/// The chroma subsampling of a sequence that is neither monochrome nor
/// sRGB, from bit `pos` on: in both directions in profile 0, in none in
/// profile 1, and else horizontally only, unless the bit depth is 12 and
/// two flags say otherwise. Then the position of the chroma samples, where
/// both directions are subsampled, and the position after all of it.
pub open spec fn subsampling_at(bytes: Seq<u8>, pos: int, seq_profile: u64, depth: u64) -> (
    bool,
    bool,
    u64,
    int,
) {
    let reads_x = seq_profile >= 2 && depth == 12;
    let subsampling_x = if reads_x {
        flag(bytes, pos)
    } else {
        seq_profile != 1
    };
    let at1 = pos + width_if(reads_x, 1);
    let reads_y = reads_x && subsampling_x;
    let subsampling_y = if reads_y {
        flag(bytes, at1)
    } else {
        seq_profile == 0
    };
    let at2 = at1 + width_if(reads_y, 1);
    let both = subsampling_x && subsampling_y;
    (
        subsampling_x,
        subsampling_y,
        if both {
            field(bytes, at2, 2)
        } else {
            CSP_UNKNOWN
        },
        at2 + width_if(both, 2),
    )
}

impl ColorConfig {
    /// The colour configuration written from bit `pos` on for a sequence of
    /// profile `seq_profile`, in a session whose bit depth was `bit_depth`.
    pub open spec fn parse(bytes: Seq<u8>, pos: int, seq_profile: u64, bit_depth: u64) -> ColorLayout {
        let (high_bitdepth, twelve_bit, depth, at1) = depth_at(bytes, pos, seq_profile, bit_depth);
        let reads_mono = seq_profile != 1;
        let mono_chrome = reads_mono && flag(bytes, at1);
        let at2 = at1 + width_if(reads_mono, 1);
        let (color_primaries, transfer_characteristics, matrix_coefficients, at3) = description_at(
            bytes,
            at2,
        );
        let srgb = !mono_chrome && color_primaries == CP_BT_709 && transfer_characteristics
            == TC_SRGB && matrix_coefficients == MC_IDENTITY;
        let at4 = at3 + width_if(!srgb, 1);
        let coded = !mono_chrome && !srgb;
        let (x, y, position, at5) = subsampling_at(bytes, at4, seq_profile, depth);
        ColorLayout {
            end: if mono_chrome {
                at4
            } else if srgb {
                at4 + 1
            } else {
                at5 + 1
            },
            config: ColorConfig {
                high_bitdepth,
                twelve_bit,
                mono_chrome,
                color_primaries,
                transfer_characteristics,
                matrix_coefficients,
                color_range: srgb || flag(bytes, at3),
                subsampling_x: mono_chrome || (coded && x),
                subsampling_y: mono_chrome || (coded && y),
                chroma_sample_position: if coded {
                    position
                } else {
                    CSP_UNKNOWN
                },
                separate_uv_delta_q: if mono_chrome {
                    false
                } else if srgb {
                    flag(bytes, at4)
                } else {
                    flag(bytes, at5)
                },
            },
            bit_depth: depth,
            num_planes: if mono_chrome {
                1
            } else {
                3
            },
        }
    }

    /// The bit depth of a sequence follows from its profile and two flags:
    /// 8 or 10 bits in the profiles 0 to 2, and 10 or 12 bits in profile 2
    /// with high bit depth.
    pub proof fn lemma_bit_depth(bytes: Seq<u8>, pos: int, seq_profile: u64, bit_depth: u64)
        ensures
            ({
                let layout = Self::parse(bytes, pos, seq_profile, bit_depth);
                let config = layout.config;
                &&& seq_profile == 2 && config.high_bitdepth ==> layout.bit_depth == (if config.twelve_bit {
                    12u64
                } else {
                    10u64
                })
                &&& seq_profile <= 2 && !(seq_profile == 2 && config.high_bitdepth)
                    ==> layout.bit_depth == (if config.high_bitdepth {
                    10u64
                } else {
                    8u64
                })
                &&& seq_profile > 2 ==> layout.bit_depth == bit_depth
            }),
    {
    }

    /// A monochrome sequence has one plane, and its chroma counts as
    /// subsampled in both directions, whatever else is coded; any other
    /// sequence has three planes.
    pub proof fn lemma_mono_chrome(bytes: Seq<u8>, pos: int, seq_profile: u64, bit_depth: u64)
        ensures
            ({
                let layout = Self::parse(bytes, pos, seq_profile, bit_depth);
                &&& layout.config.mono_chrome ==> layout.num_planes == 1
                    && layout.config.subsampling_x && layout.config.subsampling_y
                &&& !layout.config.mono_chrome ==> layout.num_planes == 3
                &&& seq_profile == 1 ==> !layout.config.mono_chrome
            }),
    {
    }

    /// Reads the bit depth of the sequence.
    fn read_depth(b: &mut BitStream, seq_profile: u64, bit_depth: u64) -> (r: Result<
        (bool, bool, u64),
        Error,
    >)
        ensures
            final(b).decoded(
                old(b),
                r,
                (
                    depth_at(old(b)@, old(b).pos(), seq_profile, bit_depth).0,
                    depth_at(old(b)@, old(b).pos(), seq_profile, bit_depth).1,
                    depth_at(old(b)@, old(b).pos(), seq_profile, bit_depth).2,
                ),
                depth_at(old(b)@, old(b).pos(), seq_profile, bit_depth).3,
            ),
    {
        let high_bitdepth = b.flag()?;
        if seq_profile == 2 && high_bitdepth {
            let twelve_bit = b.flag()?;
            if twelve_bit {
                Ok((high_bitdepth, twelve_bit, 12))
            } else {
                Ok((high_bitdepth, twelve_bit, 10))
            }
        } else if seq_profile <= 2 {
            if high_bitdepth {
                Ok((high_bitdepth, false, 10))
            } else {
                Ok((high_bitdepth, false, 8))
            }
        } else {
            Ok((high_bitdepth, false, bit_depth))
        }
    }

    /// Reads the colour description.
    fn read_description(b: &mut BitStream) -> (r: Result<(u64, u64, u64), Error>)
        ensures
            final(b).decoded(
                old(b),
                r,
                (
                    description_at(old(b)@, old(b).pos()).0,
                    description_at(old(b)@, old(b).pos()).1,
                    description_at(old(b)@, old(b).pos()).2,
                ),
                description_at(old(b)@, old(b).pos()).3,
            ),
    {
        let color_description_present_flag = b.flag()?;
        if color_description_present_flag {
            let color_primaries = b.f(8)?;
            let transfer_characteristics = b.f(8)?;
            let matrix_coefficients = b.f(8)?;
            Ok((color_primaries, transfer_characteristics, matrix_coefficients))
        } else {
            Ok((CP_UNSPECIFIED, TC_UNSPECIFIED, MC_UNSPECIFIED))
        }
    }

    /// Reads the chroma subsampling and the position of the chroma samples.
    fn read_subsampling(b: &mut BitStream, seq_profile: u64, depth: u64) -> (r: Result<
        (bool, bool, u64),
        Error,
    >)
        ensures
            final(b).decoded(
                old(b),
                r,
                (
                    subsampling_at(old(b)@, old(b).pos(), seq_profile, depth).0,
                    subsampling_at(old(b)@, old(b).pos(), seq_profile, depth).1,
                    subsampling_at(old(b)@, old(b).pos(), seq_profile, depth).2,
                ),
                subsampling_at(old(b)@, old(b).pos(), seq_profile, depth).3,
            ),
    {
        proof {
            use_type_invariant(&*b);
            b.lemma_in_bounds();
        }
        let subsampling_x;
        let subsampling_y;
        if seq_profile == 0 {
            subsampling_x = true;
            subsampling_y = true;
        } else if seq_profile == 1 {
            subsampling_x = false;
            subsampling_y = false;
        } else if depth == 12 {
            subsampling_x = b.flag()?;
            if subsampling_x {
                subsampling_y = b.flag()?;
            } else {
                subsampling_y = false;
            }
        } else {
            subsampling_x = true;
            subsampling_y = false;
        }
        if subsampling_x && subsampling_y {
            let chroma_sample_position = b.f(2)?;
            Ok((subsampling_x, subsampling_y, chroma_sample_position))
        } else {
            Ok((subsampling_x, subsampling_y, CSP_UNKNOWN))
        }
    }

    /// Decodes the colour configuration and sets the bit depth and the
    /// number of planes of the session from it. Where decoding fails, both
    /// are left as they were.
    pub fn new(b: &mut BitStream, seq_profile: u64, bit_depth: &mut u64, num_planes: &mut u64) -> (r:
        Result<ColorConfig, Error>)
        ensures
            final(b).decoded(
                old(b),
                r,
                Self::parse(old(b)@, old(b).pos(), seq_profile, *old(bit_depth)).config,
                Self::parse(old(b)@, old(b).pos(), seq_profile, *old(bit_depth)).end,
            ),
            *final(bit_depth) == if r is Ok {
                Self::parse(old(b)@, old(b).pos(), seq_profile, *old(bit_depth)).bit_depth
            } else {
                *old(bit_depth)
            },
            *final(num_planes) == if r is Ok {
                Self::parse(old(b)@, old(b).pos(), seq_profile, *old(bit_depth)).num_planes
            } else {
                *old(num_planes)
            },
    {
        let (high_bitdepth, twelve_bit, depth) = Self::read_depth(b, seq_profile, *bit_depth)?;
        let mono_chrome = seq_profile != 1 && b.flag()?;
        let (color_primaries, transfer_characteristics, matrix_coefficients) =
            Self::read_description(b)?;
        if mono_chrome {
            let color_range = b.flag()?;
            *bit_depth = depth;
            *num_planes = 1;
            return Ok(
                ColorConfig {
                    high_bitdepth,
                    twelve_bit,
                    mono_chrome,
                    color_primaries,
                    transfer_characteristics,
                    matrix_coefficients,
                    color_range,
                    subsampling_x: true,
                    subsampling_y: true,
                    chroma_sample_position: CSP_UNKNOWN,
                    separate_uv_delta_q: false,
                },
            );
        }
        if color_primaries == CP_BT_709 && transfer_characteristics == TC_SRGB
            && matrix_coefficients == MC_IDENTITY {
            let separate_uv_delta_q = b.flag()?;
            *bit_depth = depth;
            *num_planes = 3;
            return Ok(
                ColorConfig {
                    high_bitdepth,
                    twelve_bit,
                    mono_chrome,
                    color_primaries,
                    transfer_characteristics,
                    matrix_coefficients,
                    color_range: true,
                    subsampling_x: false,
                    subsampling_y: false,
                    chroma_sample_position: CSP_UNKNOWN,
                    separate_uv_delta_q,
                },
            );
        }
        let color_range = b.flag()?;
        let (subsampling_x, subsampling_y, chroma_sample_position) = Self::read_subsampling(
            b,
            seq_profile,
            depth,
        )?;
        let separate_uv_delta_q = b.flag()?;
        *bit_depth = depth;
        *num_planes = 3;
        Ok(
            ColorConfig {
                high_bitdepth,
                twelve_bit,
                mono_chrome,
                color_primaries,
                transfer_characteristics,
                matrix_coefficients,
                color_range,
                subsampling_x,
                subsampling_y,
                chroma_sample_position,
                separate_uv_delta_q,
            },
        )
    }
}

} // verus!
