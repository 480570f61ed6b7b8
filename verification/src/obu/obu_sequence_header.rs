//! The sequence header: the configuration of a whole bitstream.

use crate::bits::bitstream::{field, flag, width_if, BitStream};
use crate::error::Error;
use crate::obu::color_config::{ColorConfig, CSP_UNKNOWN};
use crate::obu::decoder_model_info::DecoderModelInfo;
use crate::obu::operating_parameters_info::OperatingParamtersInfo;
use crate::obu::timing_info::TimingInfo;
use crate::state::State;
use vstd::arithmetic::power2::lemma2_to64;
use vstd::prelude::*;

verus! {

/// The value of `seq_force_screen_content_tools` that leaves the choice to
/// each frame.
pub const SELECT_SCREEN_CONTENT_TOOLS: u64 = 2;

/// The value of `seq_force_integer_mv` that leaves the choice to each frame.
pub const SELECT_INTEGER_MV: u64 = 2;

/// One of the operating points that a sequence header configures.
#[derive(Debug, Clone, Copy, PartialEq, Eq, Structural)]
pub struct OperatingPoint {
    pub idc: u64,
    pub seq_level_idx: u64,
    /// 0 unless the level is above 7.
    pub seq_tier: u64,
    pub decoder_model_present_for_this_op: bool,
    pub operating_parameters_info: Option<OperatingParamtersInfo>,
    pub initial_display_delay_present_for_this_op: bool,
    pub initial_display_delay_minus_1: Option<u64>,
}

/// The sequence header: what holds for every frame of a sequence.
#[derive(Debug, Clone, Copy, PartialEq, Eq)]
pub struct ObuSequenceHeader {
    pub seq_profile: u64,
    pub still_picture: bool,
    pub reduced_still_picture_header: bool,
    pub timing_info_present_flag: bool,
    pub decoder_model_info_present_flag: bool,
    pub initial_display_delay_present_flag: bool,
    pub operating_points_cnt_minus_1: usize,
    /// The operating points: the first `operating_points_cnt_minus_1 + 1`
    /// entries; the others are zero.
    pub operating_points: [OperatingPoint; 32],
    pub timing_info: Option<TimingInfo>,
    pub decoder_model_info: Option<DecoderModelInfo>,
    pub frame_width_bits_minus_1: u64,
    pub frame_height_bits_minus_1: u64,
    pub max_frame_width_minus_1: u64,
    pub max_frame_height_minus_1: u64,
    pub frame_id_numbers_present_flag: bool,
    pub delta_frame_id_length_minus_2: u64,
    pub additional_frame_id_length_minus_1: u64,
    pub use_128x128_superblock: bool,
    pub enable_filter_intra: bool,
    pub enable_intra_edge_filter: bool,
    pub enable_interintra_compound: bool,
    pub enable_masked_compound: bool,
    pub enable_warped_motion: bool,
    pub enable_dual_filter: bool,
    pub enable_order_hint: bool,
    pub enable_jnt_comp: bool,
    pub enable_ref_frame_mvs: bool,
    pub seq_force_screen_content_tools: u64,
    pub seq_force_integer_mv: u64,
    pub seq_choose_screen_content_tools: bool,
    pub seq_choose_integer_mv: bool,
    pub enable_superres: bool,
    pub enable_cdef: bool,
    pub enable_restoration: bool,
    pub film_grain_params_present: bool,
    pub color_config: ColorConfig,
}

impl OperatingPoint {
    /// The operating point of a reduced still picture header, and of every
    /// entry that a sequence header does not use: everything zero.
    pub open spec fn zero() -> OperatingPoint {
        OperatingPoint {
            idc: 0,
            seq_level_idx: 0,
            seq_tier: 0,
            decoder_model_present_for_this_op: false,
            operating_parameters_info: None,
            initial_display_delay_present_for_this_op: false,
            initial_display_delay_minus_1: None,
        }
    }

    /// The operating point in which everything is zero.
    pub fn zero_point() -> (point: OperatingPoint)
        ensures
            point == OperatingPoint::zero(),
    {
        OperatingPoint {
            idc: 0,
            seq_level_idx: 0,
            seq_tier: 0,
            decoder_model_present_for_this_op: false,
            operating_parameters_info: None,
            initial_display_delay_present_for_this_op: false,
            initial_display_delay_minus_1: None,
        }
    }

    /// Operating point `op` as it is written from bit `pos` on in a
    /// sequence header whose fields before the operating points are those
    /// of `sh`.
    pub open spec fn parse(bytes: Seq<u8>, pos: int, sh: ObuSequenceHeader, op: usize) -> OperatingPoint {
        let seq_level_idx = field(bytes, pos + 12, 5);
        let at1 = pos + 17 + width_if(seq_level_idx > 7, 1);
        let model = sh.decoder_model_info_present_flag && flag(bytes, at1);
        let at2 = at1 + width_if(sh.decoder_model_info_present_flag, 1);
        let at3 = at2 + width_if(model, 2 * sh.buffer_delay_bits() + 1);
        let delay = sh.initial_display_delay_present_flag && flag(bytes, at3);
        OperatingPoint {
            idc: field(bytes, pos, 12),
            seq_level_idx,
            seq_tier: if seq_level_idx > 7 {
                field(bytes, pos + 17, 1)
            } else {
                0
            },
            decoder_model_present_for_this_op: model,
            operating_parameters_info: if model {
                Some(OperatingParamtersInfo::parse(bytes, at2, op, sh.buffer_delay_bits()))
            } else {
                None
            },
            initial_display_delay_present_for_this_op: delay,
            initial_display_delay_minus_1: if delay {
                Some(field(bytes, at3 + 1, 4))
            } else {
                None
            },
        }
    }

    /// The number of bits that the operating point at bit `pos` takes.
    pub open spec fn bits(bytes: Seq<u8>, pos: int, sh: ObuSequenceHeader) -> nat {
        let first = 17 + width_if(field(bytes, pos + 12, 5) > 7, 1);
        let at1 = pos + first;
        let model = sh.decoder_model_info_present_flag && flag(bytes, at1);
        let second = width_if(sh.decoder_model_info_present_flag, 1) + width_if(
            model,
            2 * sh.buffer_delay_bits() + 1,
        );
        let at3 = at1 + second;
        let delay = sh.initial_display_delay_present_flag && flag(bytes, at3);
        first + second + width_if(sh.initial_display_delay_present_flag, 1) + width_if(delay, 4)
    }

    /// Decodes operating point `op`.
    pub fn new(b: &mut BitStream, sh: &ObuSequenceHeader, op: usize) -> (r: Result<OperatingPoint, Error>)
        requires
            sh.decoder_model_info matches Some(d) ==> d.wf(),
        ensures
            final(b).decoded(
                old(b),
                r,
                Self::parse(old(b)@, old(b).pos(), *sh, op),
                old(b).pos() + Self::bits(old(b)@, old(b).pos(), *sh),
            ),
    {
        let idc = b.f(12)?;
        let seq_level_idx = b.f(5)?;
        let seq_tier = if seq_level_idx > 7 {
            b.f(1)?
        } else {
            0
        };
        let decoder_model_present_for_this_op = sh.decoder_model_info_present_flag && b.flag()?;
        let operating_parameters_info = if decoder_model_present_for_this_op {
            Some(OperatingParamtersInfo::new(b, op, sh.buffer_delay_length_minus_1())?)
        } else {
            None
        };
        let initial_display_delay_present_for_this_op = sh.initial_display_delay_present_flag
            && b.flag()?;
        let initial_display_delay_minus_1 = if initial_display_delay_present_for_this_op {
            Some(b.f(4)?)
        } else {
            None
        };
        Ok(
            OperatingPoint {
                idc,
                seq_level_idx,
                seq_tier,
                decoder_model_present_for_this_op,
                operating_parameters_info,
                initial_display_delay_present_for_this_op,
                initial_display_delay_minus_1,
            },
        )
    }
}

/// A part of a sequence header: the header with the fields of the part,
/// and the position after the part.
pub struct Section {
    pub pos: int,
    pub header: ObuSequenceHeader,
}

/// Where `k` operating points that start at bit `pos` end.
pub open spec fn points_end(bytes: Seq<u8>, pos: int, sh: ObuSequenceHeader, k: nat) -> int
    decreases k,
{
    if k == 0 {
        pos
    } else {
        let before = points_end(bytes, pos, sh, (k - 1) as nat);
        before + OperatingPoint::bits(bytes, before, sh)
    }
}

/// `points` with the first `k` operating points as they are written from
/// bit `pos` on.
pub open spec fn points_read(
    bytes: Seq<u8>,
    pos: int,
    sh: ObuSequenceHeader,
    points: [OperatingPoint; 32],
    k: nat,
) -> [OperatingPoint; 32]
    decreases k,
{
    if k == 0 {
        points
    } else {
        vstd::array::spec_array_update(
            points_read(bytes, pos, sh, points, (k - 1) as nat),
            k - 1,
            OperatingPoint::parse(
                bytes,
                points_end(bytes, pos, sh, (k - 1) as nat),
                sh,
                (k - 1) as usize,
            ),
        )
    }
}

/// More operating points end no earlier.
pub proof fn lemma_points_end_grows(bytes: Seq<u8>, pos: int, sh: ObuSequenceHeader, j: nat, k: nat)
    requires
        j <= k,
    ensures
        pos <= points_end(bytes, pos, sh, j) <= points_end(bytes, pos, sh, k),
    decreases k,
{
    if j < k {
        lemma_points_end_grows(bytes, pos, sh, j, (k - 1) as nat);
    } else if k > 0 {
        lemma_points_end_grows(bytes, pos, sh, (j - 1) as nat, (k - 1) as nat);
    }
}

/// The timing information and the decoder model information of a full
/// header from bit `pos` on, each after a flag that says whether it is
/// there, the second only with the first; and the position after them.
pub open spec fn timing_at(bytes: Seq<u8>, pos: int) -> (
    Option<TimingInfo>,
    Option<DecoderModelInfo>,
    int,
) {
    let timing = flag(bytes, pos);
    let at1 = if timing {
        TimingInfo::end(bytes, pos + 1)
    } else {
        pos + 1
    };
    let model = timing && flag(bytes, at1);
    let at2 = at1 + width_if(timing, 1);
    (
        if timing {
            Some(TimingInfo::parse(bytes, pos + 1))
        } else {
            None
        },
        if model {
            Some(DecoderModelInfo::parse(bytes, at2))
        } else {
            None
        },
        at2 + width_if(model, 47),
    )
}

/// The first part of a sequence header, up to the number of its operating
/// points: the profile, whether the sequence is a still picture with a
/// reduced header, and unless it is, the timing and decoder model
/// information.
#[verifier::opaque]
pub open spec fn opening(bytes: Seq<u8>, pos: int, sh: ObuSequenceHeader) -> Section {
    let reduced = flag(bytes, pos + 4);
    let timing = timing_at(bytes, pos + 5);
    let timing_info = if reduced {
        None
    } else {
        timing.0
    };
    let decoder_model_info = if reduced {
        None
    } else {
        timing.1
    };
    let at1 = if reduced {
        pos + 5
    } else {
        timing.2
    };
    Section {
        pos: at1 + width_if(!reduced, 6),
        header: ObuSequenceHeader {
            seq_profile: field(bytes, pos, 3),
            still_picture: flag(bytes, pos + 3),
            reduced_still_picture_header: reduced,
            timing_info_present_flag: timing_info.is_some(),
            timing_info,
            decoder_model_info_present_flag: decoder_model_info.is_some(),
            decoder_model_info,
            initial_display_delay_present_flag: !reduced && flag(bytes, at1),
            operating_points_cnt_minus_1: if reduced {
                0
            } else {
                field(bytes, at1 + 1, 5) as usize
            },
            ..sh
        },
    }
}

/// The operating points of a sequence header. A reduced header has none in
/// the bitstream: its one operating point is zero.
#[verifier::opaque]
pub open spec fn operating_points(bytes: Seq<u8>, pos: int, sh: ObuSequenceHeader) -> Section {
    let count = (sh.operating_points_cnt_minus_1 + 1) as nat;
    Section {
        pos: if sh.reduced_still_picture_header {
            pos
        } else {
            points_end(bytes, pos, sh, count)
        },
        header: ObuSequenceHeader {
            operating_points: if sh.reduced_still_picture_header {
                vstd::array::spec_array_update(sh.operating_points, 0, OperatingPoint::zero())
            } else {
                points_read(bytes, pos, sh, sh.operating_points, count)
            },
            ..sh
        },
    }
}

/// The frame dimensions of a sequence, how its frames are numbered, and the
/// first three of its coding tools.
#[verifier::opaque]
pub open spec fn dimensions(bytes: Seq<u8>, pos: int, sh: ObuSequenceHeader) -> Section {
    let width_bits = field(bytes, pos, 4);
    let height_bits = field(bytes, pos + 4, 4);
    let at1 = pos + 8;
    let at2 = at1 + (width_bits + 1);
    let at3 = at2 + (height_bits + 1);
    let ids = !sh.reduced_still_picture_header && flag(bytes, at3);
    let at4 = at3 + width_if(!sh.reduced_still_picture_header, 1);
    let at5 = at4 + width_if(ids, 7);
    Section {
        pos: at5 + 3,
        header: ObuSequenceHeader {
            frame_width_bits_minus_1: width_bits,
            frame_height_bits_minus_1: height_bits,
            max_frame_width_minus_1: field(bytes, at1, (width_bits + 1) as nat),
            max_frame_height_minus_1: field(bytes, at2, (height_bits + 1) as nat),
            frame_id_numbers_present_flag: ids,
            delta_frame_id_length_minus_2: if ids {
                field(bytes, at4, 4)
            } else {
                sh.delta_frame_id_length_minus_2
            },
            additional_frame_id_length_minus_1: if ids {
                field(bytes, at4 + 4, 3)
            } else {
                sh.additional_frame_id_length_minus_1
            },
            use_128x128_superblock: flag(bytes, at5),
            enable_filter_intra: flag(bytes, at5 + 1),
            enable_intra_edge_filter: flag(bytes, at5 + 2),
            ..sh
        },
    }
}

/// Whether frames may ask for screen content tools and for motion vectors
/// of whole pixels, from bit `pos` on: for each of the two, whether every
/// frame chooses for itself, and else what the sequence fixes. Motion
/// vectors are asked about only where screen content tools are not fixed at
/// 0; where they are, `integer_mv` stays. Then the position after it all.
pub open spec fn screen_content_at(bytes: Seq<u8>, pos: int, integer_mv: u64) -> (
    bool,
    u64,
    bool,
    u64,
    int,
) {
    let choose_tools = flag(bytes, pos);
    let force_tools = if choose_tools {
        SELECT_SCREEN_CONTENT_TOOLS
    } else {
        field(bytes, pos + 1, 1)
    };
    let at1 = pos + 1 + width_if(!choose_tools, 1);
    let asks_mv = force_tools > 0;
    let choose_mv = asks_mv && flag(bytes, at1);
    let reads_mv = asks_mv && !choose_mv;
    let at2 = at1 + width_if(asks_mv, 1);
    (
        choose_tools,
        force_tools,
        choose_mv,
        if choose_mv {
            SELECT_INTEGER_MV
        } else if reads_mv {
            field(bytes, at2, 1)
        } else {
            integer_mv
        },
        at2 + width_if(reads_mv, 1),
    )
}

/// The coding tools that only a full header gives. With a reduced header
/// the tools are off, and every frame chooses its screen content tools and
/// the precision of its motion vectors for itself.
#[verifier::opaque]
pub open spec fn tools(bytes: Seq<u8>, pos: int, sh: ObuSequenceHeader) -> Section {
    let full = !sh.reduced_still_picture_header;
    let order_hint = full && flag(bytes, pos + 4);
    let at1 = pos + width_if(full, 5) + width_if(order_hint, 2);
    let screen = screen_content_at(bytes, at1, sh.seq_force_integer_mv);
    Section {
        pos: if full {
            screen.4
        } else {
            pos
        },
        header: ObuSequenceHeader {
            enable_interintra_compound: full && flag(bytes, pos),
            enable_masked_compound: full && flag(bytes, pos + 1),
            enable_warped_motion: full && flag(bytes, pos + 2),
            enable_dual_filter: full && flag(bytes, pos + 3),
            enable_order_hint: order_hint,
            enable_jnt_comp: order_hint && flag(bytes, pos + 5),
            enable_ref_frame_mvs: order_hint && flag(bytes, pos + 6),
            seq_choose_screen_content_tools: full && screen.0,
            seq_force_screen_content_tools: if full {
                screen.1
            } else {
                SELECT_SCREEN_CONTENT_TOOLS
            },
            seq_choose_integer_mv: full && screen.2,
            seq_force_integer_mv: if full {
                screen.3
            } else {
                SELECT_INTEGER_MV
            },
            ..sh
        },
    }
}

/// The last switches of a sequence header, after the width of its order
/// hints and before its colour configuration.
#[verifier::opaque]
pub open spec fn closing(bytes: Seq<u8>, pos: int, sh: ObuSequenceHeader) -> Section {
    let at1 = pos + width_if(sh.enable_order_hint, 3);
    Section {
        pos: at1 + 4,
        header: ObuSequenceHeader {
            enable_superres: flag(bytes, at1),
            enable_cdef: flag(bytes, at1 + 1),
            enable_restoration: flag(bytes, at1 + 2),
            film_grain_params_present: flag(bytes, at1 + 3),
            ..sh
        },
    }
}

/// The number of bits of an order hint that the sequence header at whose
/// closing part bit `pos` stands gives: one more than a field of three
/// bits, and 0 where order hints are not enabled.
pub open spec fn order_hint_bits_at(bytes: Seq<u8>, pos: int, sh: ObuSequenceHeader) -> u64 {
    if sh.enable_order_hint {
        (field(bytes, pos, 3) + 1) as u64
    } else {
        0
    }
}

/// What the decoding of a sequence header leaves behind.
pub struct SequenceOutcome {
    /// The cursor, where decoding did not run out of buffer.
    pub pos: int,
    pub state: State,
    pub result: Result<ObuSequenceHeader, Error>,
}

/// The decoding of the sequence header written from bit `pos` on, in a
/// session in state `st`. The operating point that the session asks for is
/// looked up as soon as the operating points are read. The state changes
/// only where decoding succeeds: it then has the mask of that operating
/// point, the width of the order hints, and the bit depth and the number of
/// planes of the colour configuration.
pub open spec fn sequence_header_outcome(bytes: Seq<u8>, pos: int, st: State) -> SequenceOutcome {
    let first = opening(bytes, pos, ObuSequenceHeader::empty());
    let points = operating_points(bytes, first.pos, first.header);
    if points.pos > 8 * bytes.len() {
        SequenceOutcome { pos, state: st, result: Err(Error::EndOfStream) }
    } else if st.operating_point > points.header.operating_points_cnt_minus_1 {
        SequenceOutcome { pos: points.pos, state: st, result: Err(Error::InvalidOperatingPoint) }
    } else {
        let sized = dimensions(bytes, points.pos, points.header);
        let tooled = tools(bytes, sized.pos, sized.header);
        let closed = closing(bytes, tooled.pos, tooled.header);
        let color = ColorConfig::parse(bytes, closed.pos, closed.header.seq_profile, st.bit_depth);
        if color.end > 8 * bytes.len() {
            SequenceOutcome { pos, state: st, result: Err(Error::EndOfStream) }
        } else {
            SequenceOutcome {
                pos: color.end,
                state: State {
                    operating_point_idc: points.header.operating_points[st.operating_point as int].idc,
                    order_hint_bits: order_hint_bits_at(bytes, tooled.pos, tooled.header),
                    bit_depth: color.bit_depth,
                    num_planes: color.num_planes,
                    ..st
                },
                result: Ok(ObuSequenceHeader { color_config: color.config, ..closed.header }),
            }
        }
    }
}

/// No part of a sequence header ends before it starts.
pub proof fn lemma_sections_grow(bytes: Seq<u8>, pos: int, sh: ObuSequenceHeader)
    ensures
        timing_at(bytes, pos).2 >= pos,
        opening(bytes, pos, sh).pos >= pos,
        operating_points(bytes, pos, sh).pos >= pos,
        dimensions(bytes, pos, sh).pos >= pos,
        tools(bytes, pos, sh).pos >= pos,
        closing(bytes, pos, sh).pos >= pos,
        forall|seq_profile: u64, bit_depth: u64| #[trigger]
            ColorConfig::parse(bytes, pos, seq_profile, bit_depth).end >= pos,
{
    reveal(opening);
    reveal(operating_points);
    reveal(dimensions);
    reveal(tools);
    reveal(closing);
    lemma_points_end_grows(bytes, pos, sh, 0, (sh.operating_points_cnt_minus_1 + 1) as nat);
    assert(timing_at(bytes, pos + 5).2 >= pos + 5);
}

/// What of a sequence header the parts after its operating points leave
/// as it is.
pub open spec fn same_start(a: ObuSequenceHeader, b: ObuSequenceHeader) -> bool {
    &&& a.seq_profile == b.seq_profile
    &&& a.reduced_still_picture_header == b.reduced_still_picture_header
    &&& a.timing_info == b.timing_info
    &&& a.decoder_model_info_present_flag == b.decoder_model_info_present_flag
    &&& a.decoder_model_info == b.decoder_model_info
    &&& a.operating_points_cnt_minus_1 == b.operating_points_cnt_minus_1
    &&& a.operating_points == b.operating_points
}

/// How a frame id is made up, as a sequence header gives it.
pub open spec fn same_frame_ids(a: ObuSequenceHeader, b: ObuSequenceHeader) -> bool {
    &&& a.frame_id_numbers_present_flag == b.frame_id_numbers_present_flag
    &&& a.delta_frame_id_length_minus_2 == b.delta_frame_id_length_minus_2
    &&& a.additional_frame_id_length_minus_1 == b.additional_frame_id_length_minus_1
}

/// Each part of a sequence header leaves the parts before it as they are.
pub proof fn lemma_sections_keep(bytes: Seq<u8>, pos: int, sh: ObuSequenceHeader)
    ensures
        same_frame_ids(opening(bytes, pos, sh).header, sh),
        opening(bytes, pos, sh).header.operating_points == sh.operating_points,
        same_frame_ids(operating_points(bytes, pos, sh).header, sh),
        operating_points(bytes, pos, sh).header.operating_points_cnt_minus_1
            == sh.operating_points_cnt_minus_1,
        operating_points(bytes, pos, sh).header.seq_profile == sh.seq_profile,
        operating_points(bytes, pos, sh).header.reduced_still_picture_header
            == sh.reduced_still_picture_header,
        operating_points(bytes, pos, sh).header.timing_info == sh.timing_info,
        operating_points(bytes, pos, sh).header.decoder_model_info == sh.decoder_model_info,
        operating_points(bytes, pos, sh).header.decoder_model_info_present_flag
            == sh.decoder_model_info_present_flag,
        same_start(dimensions(bytes, pos, sh).header, sh),
        !dimensions(bytes, pos, sh).header.frame_id_numbers_present_flag ==> dimensions(
            bytes,
            pos,
            sh,
        ).header.delta_frame_id_length_minus_2 == sh.delta_frame_id_length_minus_2 && dimensions(
            bytes,
            pos,
            sh,
        ).header.additional_frame_id_length_minus_1 == sh.additional_frame_id_length_minus_1,
        same_start(tools(bytes, pos, sh).header, sh),
        same_frame_ids(tools(bytes, pos, sh).header, sh),
        same_start(closing(bytes, pos, sh).header, sh),
        same_frame_ids(closing(bytes, pos, sh).header, sh),
        closing(bytes, pos, sh).header.enable_order_hint == sh.enable_order_hint,
{
    reveal(opening);
    reveal(operating_points);
    reveal(dimensions);
    reveal(tools);
    reveal(closing);
}

impl ObuSequenceHeader {
    /// What a decoded sequence header always satisfies: it has at most 32
    /// operating points; decoder model information comes with timing
    /// information; and the lengths it gives for later fields are within
    /// the width of their own fields.
    pub open spec fn wf(self) -> bool {
        &&& self.operating_points_cnt_minus_1 < 32
        &&& self.decoder_model_info_present_flag ==> self.timing_info.is_some()
        &&& self.decoder_model_info_present_flag == self.decoder_model_info.is_some()
        &&& self.decoder_model_info matches Some(d) ==> d.wf()
        &&& self.delta_frame_id_length_minus_2 < 16
        &&& self.additional_frame_id_length_minus_1 < 8
    }

    /// The number of bits of a frame id; 0 where frame ids are not used.
    pub open spec fn spec_id_len(self) -> nat {
        if self.frame_id_numbers_present_flag {
            (self.additional_frame_id_length_minus_1 + self.delta_frame_id_length_minus_2 + 3) as nat
        } else {
            0
        }
    }

    /// Whether frames are shown at times that the bitstream gives one by one.
    pub open spec fn spec_needs_temporal_point_info(self) -> bool {
        self.decoder_model_info_present_flag && !(self.timing_info matches Some(t)
            && t.equal_picture_interval)
    }

    /// The number of bits of a decoder or encoder buffer delay.
    pub open spec fn buffer_delay_bits(self) -> nat {
        match self.decoder_model_info {
            Some(d) => (d.buffer_delay_length_minus_1 + 1) as nat,
            None => 1,
        }
    }

    /// The header before anything is decoded: every field zero or false.
    pub open spec fn empty() -> ObuSequenceHeader {
        ObuSequenceHeader {
            seq_profile: 0,
            still_picture: false,
            reduced_still_picture_header: false,
            timing_info_present_flag: false,
            decoder_model_info_present_flag: false,
            initial_display_delay_present_flag: false,
            operating_points_cnt_minus_1: 0,
            operating_points: vstd::array::spec_array_fill_for_copy_type::<OperatingPoint, 32>(
                OperatingPoint::zero(),
            ),
            timing_info: None,
            decoder_model_info: None,
            frame_width_bits_minus_1: 0,
            frame_height_bits_minus_1: 0,
            max_frame_width_minus_1: 0,
            max_frame_height_minus_1: 0,
            frame_id_numbers_present_flag: false,
            delta_frame_id_length_minus_2: 0,
            additional_frame_id_length_minus_1: 0,
            use_128x128_superblock: false,
            enable_filter_intra: false,
            enable_intra_edge_filter: false,
            enable_interintra_compound: false,
            enable_masked_compound: false,
            enable_warped_motion: false,
            enable_dual_filter: false,
            enable_order_hint: false,
            enable_jnt_comp: false,
            enable_ref_frame_mvs: false,
            seq_force_screen_content_tools: 0,
            seq_force_integer_mv: 0,
            seq_choose_screen_content_tools: false,
            seq_choose_integer_mv: false,
            enable_superres: false,
            enable_cdef: false,
            enable_restoration: false,
            film_grain_params_present: false,
            color_config: ColorConfig {
                high_bitdepth: false,
                twelve_bit: false,
                mono_chrome: false,
                color_primaries: 0,
                transfer_characteristics: 0,
                matrix_coefficients: 0,
                color_range: false,
                subsampling_x: false,
                subsampling_y: false,
                chroma_sample_position: CSP_UNKNOWN,
                separate_uv_delta_q: false,
            },
        }
    }

    /// The number of bits of a buffer removal time.
    pub open spec fn spec_buffer_removal_time_bits(self) -> nat {
        match self.decoder_model_info {
            Some(d) => (d.buffer_removal_time_length_minus_1 + 1) as nat,
            None => 0,
        }
    }
}

impl ObuSequenceHeader {
    /// The number of bits of a frame id; 0 where frame ids are not used.
    pub fn id_len(&self) -> (n: u64)
        requires
            self.wf(),
        ensures
            n == self.spec_id_len(),
            n <= 25,
    {
        if self.frame_id_numbers_present_flag {
            self.additional_frame_id_length_minus_1 + self.delta_frame_id_length_minus_2 + 3
        } else {
            0
        }
    }

    /// Whether frames are shown at times that the bitstream gives one by one.
    pub fn needs_temporal_point_info(&self) -> (r: bool)
        ensures
            r == self.spec_needs_temporal_point_info(),
    {
        self.decoder_model_info_present_flag && !match self.timing_info {
            Some(t) => t.equal_picture_interval,
            None => false,
        }
    }

    /// `buffer_delay_length_minus_1` of the decoder model information; 0
    /// without such information.
    pub fn buffer_delay_length_minus_1(&self) -> (n: u64)
        requires
            self.decoder_model_info matches Some(d) ==> d.wf(),
        ensures
            n + 1 == self.buffer_delay_bits(),
            n < 32,
    {
        match self.decoder_model_info {
            Some(d) => d.buffer_delay_length_minus_1,
            None => 0,
        }
    }

    /// The number of bits of a buffer removal time.
    pub fn buffer_removal_time_bits(&self) -> (n: u64)
        requires
            self.wf(),
        ensures
            n == self.spec_buffer_removal_time_bits(),
            n <= 32,
    {
        match self.decoder_model_info {
            Some(d) => d.buffer_removal_time_length_minus_1 + 1,
            None => 0,
        }
    }

    /// A header of which nothing is decoded yet.
    pub fn empty_header() -> (sh: ObuSequenceHeader)
        ensures
            sh == ObuSequenceHeader::empty(),
    {
        let zero = OperatingPoint::zero_point();
        ObuSequenceHeader {
            seq_profile: 0,
            still_picture: false,
            reduced_still_picture_header: false,
            timing_info_present_flag: false,
            decoder_model_info_present_flag: false,
            initial_display_delay_present_flag: false,
            operating_points_cnt_minus_1: 0,
            operating_points: [zero;32],
            timing_info: None,
            decoder_model_info: None,
            frame_width_bits_minus_1: 0,
            frame_height_bits_minus_1: 0,
            max_frame_width_minus_1: 0,
            max_frame_height_minus_1: 0,
            frame_id_numbers_present_flag: false,
            delta_frame_id_length_minus_2: 0,
            additional_frame_id_length_minus_1: 0,
            use_128x128_superblock: false,
            enable_filter_intra: false,
            enable_intra_edge_filter: false,
            enable_interintra_compound: false,
            enable_masked_compound: false,
            enable_warped_motion: false,
            enable_dual_filter: false,
            enable_order_hint: false,
            enable_jnt_comp: false,
            enable_ref_frame_mvs: false,
            seq_force_screen_content_tools: 0,
            seq_force_integer_mv: 0,
            seq_choose_screen_content_tools: false,
            seq_choose_integer_mv: false,
            enable_superres: false,
            enable_cdef: false,
            enable_restoration: false,
            film_grain_params_present: false,
            color_config: ColorConfig {
                high_bitdepth: false,
                twelve_bit: false,
                mono_chrome: false,
                color_primaries: 0,
                transfer_characteristics: 0,
                matrix_coefficients: 0,
                color_range: false,
                subsampling_x: false,
                subsampling_y: false,
                chroma_sample_position: CSP_UNKNOWN,
                separate_uv_delta_q: false,
            },
        }
    }

    /// The timing and decoder model information of a full header.
    fn read_timing(b: &mut BitStream) -> (r: Result<
        (Option<TimingInfo>, Option<DecoderModelInfo>),
        Error,
    >)
        ensures
            final(b).decoded(
                old(b),
                r,
                (timing_at(old(b)@, old(b).pos()).0, timing_at(old(b)@, old(b).pos()).1),
                timing_at(old(b)@, old(b).pos()).2,
            ),
            r matches Ok(v) ==> (v.1 matches Some(d) ==> d.wf()),
    {
        if b.flag()? {
            let timing_info = TimingInfo::new(b)?;
            if b.flag()? {
                let decoder_model_info = DecoderModelInfo::new(b)?;
                Ok((Some(timing_info), Some(decoder_model_info)))
            } else {
                Ok((Some(timing_info), None))
            }
        } else {
            Ok((None, None))
        }
    }

    /// What a part of the header owes whose work on a long enough buffer is
    /// `section`: that work, if the buffer reaches to the end of the part;
    /// `EndOfStream`, with the header as it was, if it does not.
    pub open spec fn section_read(
        before: &BitStream,
        after: &BitStream,
        sh0: ObuSequenceHeader,
        sh1: ObuSequenceHeader,
        r: Result<(), Error>,
        section: Section,
    ) -> bool {
        &&& after@ == before@
        &&& after.same_leb128(before)
        &&& 0 <= before.pos() <= after.pos() <= 8 * before@.len()
        &&& if section.pos <= 8 * before@.len() {
            r == Ok::<(), Error>(()) && after.pos() == section.pos && sh1 == section.header
        } else {
            r == Err::<(), Error>(Error::EndOfStream) && sh1 == sh0
        }
    }

    /// Reads the fields of the opening part.
    fn read_opening_fields(b: &mut BitStream) -> (r: Result<
        (u64, bool, bool, Option<TimingInfo>, Option<DecoderModelInfo>, bool, usize),
        Error,
    >)
        ensures
            ({
                let section = opening(old(b)@, old(b).pos(), ObuSequenceHeader::empty());
                final(b).decoded(
                    old(b),
                    r,
                    (
                        section.header.seq_profile,
                        section.header.still_picture,
                        section.header.reduced_still_picture_header,
                        section.header.timing_info,
                        section.header.decoder_model_info,
                        section.header.initial_display_delay_present_flag,
                        section.header.operating_points_cnt_minus_1,
                    ),
                    section.pos,
                )
            }),
            r matches Ok(v) ==> (v.4 matches Some(d) ==> d.wf()),
            r matches Ok(v) ==> v.6 < 32,
            r matches Ok(v) ==> (v.4.is_some() ==> v.3.is_some()),
    {
        proof {
            reveal(opening);
        }
        let seq_profile = b.f(3)?;
        let still_picture = b.flag()?;
        let reduced_still_picture_header = b.flag()?;
        if reduced_still_picture_header {
            return Ok((seq_profile, still_picture, true, None, None, false, 0));
        }
        let (timing_info, decoder_model_info) = Self::read_timing(b)?;
        let initial_display_delay_present_flag = b.flag()?;
        let operating_points_cnt_minus_1 = b.f(5)? as usize;
        proof {
            lemma2_to64();
        }
        Ok(
            (
                seq_profile,
                still_picture,
                false,
                timing_info,
                decoder_model_info,
                initial_display_delay_present_flag,
                operating_points_cnt_minus_1,
            ),
        )
    }

    /// Reads the opening part into the header.
    fn read_opening(&mut self, b: &mut BitStream) -> (r: Result<(), Error>)
        ensures
            Self::section_read(
                old(b),
                final(b),
                *old(self),
                *final(self),
                r,
                opening(old(b)@, old(b).pos(), *old(self)),
            ),
            r is Ok ==> (final(self).decoder_model_info matches Some(d) ==> d.wf()),
            r is Ok ==> final(self).operating_points_cnt_minus_1 < 32,
            r is Ok ==> final(self).decoder_model_info_present_flag
                == final(self).decoder_model_info.is_some(),
            r is Ok ==> (final(self).decoder_model_info_present_flag
                ==> final(self).timing_info.is_some()),
    {
        proof {
            reveal(opening);
        }
        let v = Self::read_opening_fields(b)?;
        *self = ObuSequenceHeader {
            seq_profile: v.0,
            still_picture: v.1,
            reduced_still_picture_header: v.2,
            timing_info_present_flag: v.3.is_some(),
            timing_info: v.3,
            decoder_model_info_present_flag: v.4.is_some(),
            decoder_model_info: v.4,
            initial_display_delay_present_flag: v.5,
            operating_points_cnt_minus_1: v.6,
            ..*self
        };
        Ok(())
    }

    /// Reads the operating points of the full header `sh` into `points`.
    fn read_full_points(b: &mut BitStream, sh: &ObuSequenceHeader, points: [OperatingPoint; 32]) -> (r:
        Result<[OperatingPoint; 32], Error>)
        requires
            sh.operating_points_cnt_minus_1 < 32,
            sh.decoder_model_info matches Some(d) ==> d.wf(),
        ensures
            final(b).decoded(
                old(b),
                r,
                points_read(
                    old(b)@,
                    old(b).pos(),
                    *sh,
                    points,
                    (sh.operating_points_cnt_minus_1 + 1) as nat,
                ),
                points_end(
                    old(b)@,
                    old(b).pos(),
                    *sh,
                    (sh.operating_points_cnt_minus_1 + 1) as nat,
                ),
            ),
    {
        proof {
            use_type_invariant(&*b);
            b.lemma_in_bounds();
        }
        let ghost bytes = b@;
        let ghost start = b.pos();
        let count = sh.operating_points_cnt_minus_1 + 1;
        let mut result = points;
        let mut i: usize = 0;
        while i < count
            invariant
                i <= count == sh.operating_points_cnt_minus_1 + 1 <= 32,
                sh.decoder_model_info matches Some(d) ==> d.wf(),
                b@ == bytes,
                bytes == old(b)@,
                start == old(b).pos(),
                b.same_leb128(old(b)),
                0 <= start <= b.pos() <= 8 * bytes.len(),
                b.pos() == points_end(bytes, start, *sh, i as nat),
                result == points_read(bytes, start, *sh, points, i as nat),
            decreases count - i,
        {
            let ghost before = result;
            let ghost at = b.pos();
            match OperatingPoint::new(b, sh, i) {
                Ok(point) => {
                    result[i] = point;
                    assert(result =~= vstd::array::spec_array_update(before, i as int, point));
                },
                Err(e) => {
                    proof {
                        assert(points_end(bytes, start, *sh, (i + 1) as nat) == at
                            + OperatingPoint::bits(bytes, at, *sh));
                        lemma_points_end_grows(bytes, start, *sh, (i + 1) as nat, count as nat);
                    }
                    return Err(e);
                },
            }
            i += 1;
        }
        Ok(result)
    }

    /// The operating points of the header `sh`: read into `points`, or the
    /// one zero point of a reduced header.
    fn read_points(b: &mut BitStream, sh: &ObuSequenceHeader, points: [OperatingPoint; 32]) -> (r:
        Result<[OperatingPoint; 32], Error>)
        requires
            sh.operating_points_cnt_minus_1 < 32,
            sh.decoder_model_info matches Some(d) ==> d.wf(),
            points == sh.operating_points,
        ensures
            final(b).decoded(
                old(b),
                r,
                operating_points(old(b)@, old(b).pos(), *sh).header.operating_points,
                operating_points(old(b)@, old(b).pos(), *sh).pos,
            ),
    {
        proof {
            reveal(operating_points);
        }
        proof {
            use_type_invariant(&*b);
            b.lemma_in_bounds();
        }
        if sh.reduced_still_picture_header {
            let mut result = points;
            result[0] = OperatingPoint::zero_point();
            assert(result =~= vstd::array::spec_array_update(points, 0, OperatingPoint::zero()));
            Ok(result)
        } else {
            Self::read_full_points(b, sh, points)
        }
    }

    /// Reads the operating points into the header.
    fn read_operating_points(&mut self, b: &mut BitStream) -> (r: Result<(), Error>)
        requires
            old(self).operating_points_cnt_minus_1 < 32,
            old(self).decoder_model_info matches Some(d) ==> d.wf(),
        ensures
            Self::section_read(
                old(b),
                final(b),
                *old(self),
                *final(self),
                r,
                operating_points(old(b)@, old(b).pos(), *old(self)),
            ),
    {
        proof {
            reveal(operating_points);
        }
        let operating_points = Self::read_points(b, self, self.operating_points)?;
        *self = ObuSequenceHeader { operating_points, ..*self };
        Ok(())
    }

    /// Looks up the operating point that the session asks for among the
    /// `operating_points_cnt_minus_1 + 1` points of a sequence header.
    pub fn choose_operating_point(requested: usize, operating_points_cnt_minus_1: usize) -> (r:
        Result<usize, Error>)
        ensures
            r == if requested <= operating_points_cnt_minus_1 {
                Ok::<usize, Error>(requested)
            } else {
                Err(Error::InvalidOperatingPoint)
            },
    {
        if requested <= operating_points_cnt_minus_1 {
            Ok(requested)
        } else {
            Err(Error::InvalidOperatingPoint)
        }
    }

    /// Reads the fields of the dimensions part.
    fn read_dimension_fields(b: &mut BitStream, sh: &ObuSequenceHeader) -> (r: Result<
        (u64, u64, u64, u64, bool, u64, u64, bool, bool, bool),
        Error,
    >)
        ensures
            ({
                let section = dimensions(old(b)@, old(b).pos(), *sh);
                final(b).decoded(
                    old(b),
                    r,
                    (
                        section.header.frame_width_bits_minus_1,
                        section.header.frame_height_bits_minus_1,
                        section.header.max_frame_width_minus_1,
                        section.header.max_frame_height_minus_1,
                        section.header.frame_id_numbers_present_flag,
                        section.header.delta_frame_id_length_minus_2,
                        section.header.additional_frame_id_length_minus_1,
                        section.header.use_128x128_superblock,
                        section.header.enable_filter_intra,
                        section.header.enable_intra_edge_filter,
                    ),
                    section.pos,
                )
            }),
            r matches Ok(v) ==> v.4 ==> v.5 < 16 && v.6 < 8,
    {
        proof {
            reveal(dimensions);
        }
        let frame_width_bits_minus_1 = b.f(4)?;
        let frame_height_bits_minus_1 = b.f(4)?;
        proof {
            lemma2_to64();
        }
        let max_frame_width_minus_1 = b.f(frame_width_bits_minus_1 + 1)?;
        let max_frame_height_minus_1 = b.f(frame_height_bits_minus_1 + 1)?;
        let frame_id_numbers_present_flag = !sh.reduced_still_picture_header && b.flag()?;
        let delta_frame_id_length_minus_2 = if frame_id_numbers_present_flag {
            b.f(4)?
        } else {
            sh.delta_frame_id_length_minus_2
        };
        let additional_frame_id_length_minus_1 = if frame_id_numbers_present_flag {
            b.f(3)?
        } else {
            sh.additional_frame_id_length_minus_1
        };
        let use_128x128_superblock = b.flag()?;
        let enable_filter_intra = b.flag()?;
        let enable_intra_edge_filter = b.flag()?;
        Ok(
            (
                frame_width_bits_minus_1,
                frame_height_bits_minus_1,
                max_frame_width_minus_1,
                max_frame_height_minus_1,
                frame_id_numbers_present_flag,
                delta_frame_id_length_minus_2,
                additional_frame_id_length_minus_1,
                use_128x128_superblock,
                enable_filter_intra,
                enable_intra_edge_filter,
            ),
        )
    }

    /// Reads the dimensions part into the header.
    fn read_dimensions(&mut self, b: &mut BitStream) -> (r: Result<(), Error>)
        ensures
            Self::section_read(
                old(b),
                final(b),
                *old(self),
                *final(self),
                r,
                dimensions(old(b)@, old(b).pos(), *old(self)),
            ),
            r is Ok && final(self).frame_id_numbers_present_flag ==> final(
                self
            ).delta_frame_id_length_minus_2 < 16 && final(self).additional_frame_id_length_minus_1
                < 8,
    {
        proof {
            reveal(dimensions);
        }
        let v = Self::read_dimension_fields(b, self)?;
        *self = ObuSequenceHeader {
            frame_width_bits_minus_1: v.0,
            frame_height_bits_minus_1: v.1,
            max_frame_width_minus_1: v.2,
            max_frame_height_minus_1: v.3,
            frame_id_numbers_present_flag: v.4,
            delta_frame_id_length_minus_2: v.5,
            additional_frame_id_length_minus_1: v.6,
            use_128x128_superblock: v.7,
            enable_filter_intra: v.8,
            enable_intra_edge_filter: v.9,
            ..*self
        };
        Ok(())
    }

    /// Reads what the sequence says of screen content tools and of motion
    /// vectors of whole pixels.
    fn read_screen_content(b: &mut BitStream, integer_mv: u64) -> (r: Result<
        (bool, u64, bool, u64),
        Error,
    >)
        ensures
            final(b).decoded(
                old(b),
                r,
                (
                    screen_content_at(old(b)@, old(b).pos(), integer_mv).0,
                    screen_content_at(old(b)@, old(b).pos(), integer_mv).1,
                    screen_content_at(old(b)@, old(b).pos(), integer_mv).2,
                    screen_content_at(old(b)@, old(b).pos(), integer_mv).3,
                ),
                screen_content_at(old(b)@, old(b).pos(), integer_mv).4,
            ),
    {
        let seq_choose_screen_content_tools = b.flag()?;
        let seq_force_screen_content_tools = if seq_choose_screen_content_tools {
            SELECT_SCREEN_CONTENT_TOOLS
        } else {
            b.f(1)?
        };
        if seq_force_screen_content_tools > 0 {
            let seq_choose_integer_mv = b.flag()?;
            let seq_force_integer_mv = if seq_choose_integer_mv {
                SELECT_INTEGER_MV
            } else {
                b.f(1)?
            };
            Ok(
                (
                    seq_choose_screen_content_tools,
                    seq_force_screen_content_tools,
                    seq_choose_integer_mv,
                    seq_force_integer_mv,
                ),
            )
        } else {
            Ok(
                (
                    seq_choose_screen_content_tools,
                    seq_force_screen_content_tools,
                    false,
                    integer_mv,
                ),
            )
        }
    }

    /// Reads the flags of the tools that a full header switches on or off.
    fn read_tool_flags(b: &mut BitStream) -> (r: Result<
        (bool, bool, bool, bool, bool, bool, bool),
        Error,
    >)
        ensures
            ({
                let order_hint = flag(old(b)@, old(b).pos() + 4);
                final(b).decoded(
                    old(b),
                    r,
                    (
                        flag(old(b)@, old(b).pos()),
                        flag(old(b)@, old(b).pos() + 1),
                        flag(old(b)@, old(b).pos() + 2),
                        flag(old(b)@, old(b).pos() + 3),
                        order_hint,
                        order_hint && flag(old(b)@, old(b).pos() + 5),
                        order_hint && flag(old(b)@, old(b).pos() + 6),
                    ),
                    old(b).pos() + 5 + width_if(order_hint, 2),
                )
            }),
    {
        let enable_interintra_compound = b.flag()?;
        let enable_masked_compound = b.flag()?;
        let enable_warped_motion = b.flag()?;
        let enable_dual_filter = b.flag()?;
        let enable_order_hint = b.flag()?;
        let enable_jnt_comp = enable_order_hint && b.flag()?;
        let enable_ref_frame_mvs = enable_order_hint && b.flag()?;
        Ok(
            (
                enable_interintra_compound,
                enable_masked_compound,
                enable_warped_motion,
                enable_dual_filter,
                enable_order_hint,
                enable_jnt_comp,
                enable_ref_frame_mvs,
            ),
        )
    }

    /// Reads the fields of the tools part.
    fn read_tool_fields(b: &mut BitStream, sh: &ObuSequenceHeader) -> (r: Result<
        ((bool, bool, bool, bool, bool, bool, bool), (bool, u64, bool, u64)),
        Error,
    >)
        ensures
            ({
                let section = tools(old(b)@, old(b).pos(), *sh);
                final(b).decoded(
                    old(b),
                    r,
                    (
                        (
                            section.header.enable_interintra_compound,
                            section.header.enable_masked_compound,
                            section.header.enable_warped_motion,
                            section.header.enable_dual_filter,
                            section.header.enable_order_hint,
                            section.header.enable_jnt_comp,
                            section.header.enable_ref_frame_mvs,
                        ),
                        (
                            section.header.seq_choose_screen_content_tools,
                            section.header.seq_force_screen_content_tools,
                            section.header.seq_choose_integer_mv,
                            section.header.seq_force_integer_mv,
                        ),
                    ),
                    section.pos,
                )
            }),
    {
        proof {
            reveal(tools);
            use_type_invariant(&*b);
            b.lemma_in_bounds();
        }
        if sh.reduced_still_picture_header {
            Ok(
                (
                    (false, false, false, false, false, false, false),
                    (false, SELECT_SCREEN_CONTENT_TOOLS, false, SELECT_INTEGER_MV),
                ),
            )
        } else {
            let flags = Self::read_tool_flags(b)?;
            let screen = Self::read_screen_content(b, sh.seq_force_integer_mv)?;
            Ok((flags, screen))
        }
    }

    /// Reads the tools part into the header.
    fn read_tools(&mut self, b: &mut BitStream) -> (r: Result<(), Error>)
        ensures
            Self::section_read(
                old(b),
                final(b),
                *old(self),
                *final(self),
                r,
                tools(old(b)@, old(b).pos(), *old(self)),
            ),
    {
        proof {
            reveal(tools);
        }
        let (flags, screen) = Self::read_tool_fields(b, self)?;
        *self = ObuSequenceHeader {
            enable_interintra_compound: flags.0,
            enable_masked_compound: flags.1,
            enable_warped_motion: flags.2,
            enable_dual_filter: flags.3,
            enable_order_hint: flags.4,
            enable_jnt_comp: flags.5,
            enable_ref_frame_mvs: flags.6,
            seq_choose_screen_content_tools: screen.0,
            seq_force_screen_content_tools: screen.1,
            seq_choose_integer_mv: screen.2,
            seq_force_integer_mv: screen.3,
            ..*self
        };
        Ok(())
    }

    /// Reads the width of the order hints and the fields of the closing
    /// part.
    fn read_closing_fields(b: &mut BitStream, sh: &ObuSequenceHeader) -> (r: Result<
        (u64, bool, bool, bool, bool),
        Error,
    >)
        ensures
            ({
                let section = closing(old(b)@, old(b).pos(), *sh);
                final(b).decoded(
                    old(b),
                    r,
                    (
                        order_hint_bits_at(old(b)@, old(b).pos(), *sh),
                        section.header.enable_superres,
                        section.header.enable_cdef,
                        section.header.enable_restoration,
                        section.header.film_grain_params_present,
                    ),
                    section.pos,
                )
            }),
            r matches Ok(v) ==> v.0 <= 8,
    {
        proof {
            reveal(closing);
        }
        let order_hint_bits = if sh.enable_order_hint {
            let order_hint_bits_minus_1 = b.f(3)?;
            proof {
                lemma2_to64();
            }
            order_hint_bits_minus_1 + 1
        } else {
            0
        };
        let enable_superres = b.flag()?;
        let enable_cdef = b.flag()?;
        let enable_restoration = b.flag()?;
        let film_grain_params_present = b.flag()?;
        Ok((order_hint_bits, enable_superres, enable_cdef, enable_restoration, film_grain_params_present))
    }

    /// Reads the closing part; gives the width of the order hints.
    fn read_closing(&mut self, b: &mut BitStream) -> (r: Result<u64, Error>)
        ensures
            Self::section_read(
                old(b),
                final(b),
                *old(self),
                *final(self),
                match r {
                    Ok(_) => Ok(()),
                    Err(e) => Err(e),
                },
                closing(old(b)@, old(b).pos(), *old(self)),
            ),
            r matches Ok(bits) ==> bits == order_hint_bits_at(old(b)@, old(b).pos(), *old(self))
                && bits <= 8,
    {
        proof {
            reveal(closing);
        }
        let v = Self::read_closing_fields(b, self)?;
        *self = ObuSequenceHeader {
            enable_superres: v.1,
            enable_cdef: v.2,
            enable_restoration: v.3,
            film_grain_params_present: v.4,
            ..*self
        };
        Ok(v.0)
    }

    /// Decodes a sequence header and sets the session's operating point
    /// mask, order hint width, bit depth and number of planes from it. The
    /// state changes only where decoding succeeds.
    pub fn new(b: &mut BitStream, state: &mut State) -> (r: Result<ObuSequenceHeader, Error>)
        ensures
            final(b)@ == old(b)@,
            final(b).same_leb128(old(b)),
            0 <= old(b).pos() <= final(b).pos() <= 8 * old(b)@.len(),
            ({
                let outcome = sequence_header_outcome(old(b)@, old(b).pos(), *old(state));
                &&& r == outcome.result
                &&& *final(state) == outcome.state
                &&& r != Err::<ObuSequenceHeader, Error>(Error::EndOfStream) ==> final(b).pos()
                    == outcome.pos
            }),
            r matches Ok(sh) ==> sh.wf(),
            old(state).wf() ==> final(state).wf(),
    {
        let ghost bytes = b@;
        let ghost first = opening(bytes, b.pos(), ObuSequenceHeader::empty());
        let ghost points = operating_points(bytes, first.pos, first.header);
        let ghost sized = dimensions(bytes, points.pos, points.header);
        let ghost tooled = tools(bytes, sized.pos, sized.header);
        let ghost closed = closing(bytes, tooled.pos, tooled.header);
        proof {
            lemma_sections_grow(bytes, b.pos(), ObuSequenceHeader::empty());
            lemma_sections_grow(bytes, first.pos, first.header);
            lemma_sections_grow(bytes, points.pos, points.header);
            lemma_sections_grow(bytes, sized.pos, sized.header);
            lemma_sections_grow(bytes, tooled.pos, tooled.header);
            lemma_sections_grow(bytes, closed.pos, closed.header);
            lemma_sections_keep(bytes, b.pos(), ObuSequenceHeader::empty());
            lemma_sections_keep(bytes, first.pos, first.header);
            lemma_sections_keep(bytes, points.pos, points.header);
            lemma_sections_keep(bytes, sized.pos, sized.header);
            lemma_sections_keep(bytes, tooled.pos, tooled.header);
        }
        let mut sh = Self::empty_header();
        sh.read_opening(b)?;
        sh.read_operating_points(b)?;
        let operating_point = Self::choose_operating_point(
            state.operating_point,
            sh.operating_points_cnt_minus_1,
        )?;
        sh.read_dimensions(b)?;
        sh.read_tools(b)?;
        let order_hint_bits = sh.read_closing(b)?;
        let mut bit_depth = state.bit_depth;
        let mut num_planes = state.num_planes;
        let color_config = ColorConfig::new(b, sh.seq_profile, &mut bit_depth, &mut num_planes)?;
        *state = State {
            operating_point_idc: sh.operating_points[operating_point].idc,
            order_hint_bits,
            bit_depth,
            num_planes,
            ..*state
        };
        Ok(ObuSequenceHeader { color_config, ..sh })
    }
}

} // verus!
