//! The frame header: what is decoded once for every frame.
//!
//! Several parts of the frame header grammar are decoded outside this
//! library. The header is therefore decoded in stages. Each stage reads the
//! fields up to the next such part and says which part has to be supplied
//! before the stage that follows can run.

use crate::bits::bitstream::{field, flag, width_if, BitStream};
use crate::error::{Error, Feature};
use crate::obu::obu_header::ObuHeader;
use crate::obu::obu_sequence_header::{ObuSequenceHeader, SELECT_INTEGER_MV, SELECT_SCREEN_CONTENT_TOOLS};
use crate::state::State;
use vstd::arithmetic::power2::{lemma2_to64, lemma_pow2_strictly_increases, pow2};
use vstd::bits::lemma_u64_shl_is_mul;
use vstd::prelude::*;

verus! {

/// The type of a frame that starts a sequence anew.
pub const KEY_FRAME: u64 = 0;

/// The type of a frame that is predicted from others.
pub const INTER_FRAME: u64 = 1;

/// The type of a frame that is coded by itself but keeps the references.
pub const INTRA_ONLY_FRAME: u64 = 2;

/// The type of a frame at which a decoder may switch between streams.
pub const SWITCH_FRAME: u64 = 3;

/// The value of `primary_ref_frame` that names no reference.
pub const PRIMARY_REF_NONE: u64 = 7;

/// The value of `refresh_frame_flags` that refreshes every slot.
pub const ALL_FRAMES: u64 = 0xff;

/// The header of one frame, as far as it is decoded.
#[derive(Debug, Clone, Copy, PartialEq, Eq)]
pub struct UncompressedHeader {
    pub show_existing_frame: bool,
    pub frame_type: u64,
    pub show_frame: bool,
    pub showable_frame: bool,
    pub frame_to_show_map_idx: usize,
    pub refresh_frame_flags: u64,
    pub display_frame_id: u64,
    pub error_resilient_mode: bool,
    pub disable_cdf_update: bool,
    pub allow_screen_content_tools: bool,
    pub force_integer_mv: bool,
    pub current_frame_id: u64,
    pub frame_size_override_flag: bool,
    pub primary_ref_frame: u64,
    /// The buffer removal time for each operating point that has one.
    pub buffer_removal_time: [Option<u64>; 32],
    pub allow_high_precision_mv: bool,
    pub use_ref_frame_mvs: bool,
    pub allow_intrabc: bool,
    pub ref_order_hint: [u64; 8],
    pub frame_refs_short_signaling: bool,
    pub last_frame_idx: usize,
    pub gold_frame_idx: usize,
    pub ref_frame_idx: [usize; 7],
    pub expected_frame_id: [u64; 7],
    pub is_motion_mode_switchable: bool,
    pub disable_frame_end_update_cdf: bool,
}

/// A point at which the decoding of a frame header can start or go on.
#[derive(Debug, Clone, Copy, PartialEq, Eq, Structural)]
pub enum Stage {
    /// Nothing of the header has been read.
    Start,
    /// An existing frame is shown: its slot has been read.
    ExistingFrame,
    /// `frame_type` and `show_frame` have been read.
    Shown,
    /// The frame's type and visibility are settled.
    Setup,
    /// The frame id has been read and the references marked.
    References,
    /// The order hint and the buffer removal times have been read.
    Refresh,
    /// An inter frame, after the slots it refreshes.
    ShortSignaling,
    /// An intra frame, after its frame size.
    IntraRenderSize,
    /// An intra frame, after its frame and render size.
    IntraTail,
    /// An inter frame, where its reference indices start.
    ReferenceIndices,
    /// An inter frame, after its frame size.
    InterRenderSize,
    /// An inter frame, after its sizes.
    Motion,
    /// What intra and inter frames end with.
    Tail,
    /// Every field has been read and the entropy contexts are set up.
    Complete,
}

impl Stage {
    /// A number that is smaller for every stage that a stage can continue
    /// with than for the stage itself.
    pub open spec fn rank(self) -> nat {
        match self {
            Stage::Start => 13,
            Stage::ExistingFrame => 1,
            Stage::Shown => 12,
            Stage::Setup => 11,
            Stage::References => 10,
            Stage::Refresh => 9,
            Stage::ShortSignaling => 8,
            Stage::IntraRenderSize => 3,
            Stage::IntraTail => 2,
            Stage::ReferenceIndices => 7,
            Stage::InterRenderSize => 6,
            Stage::Motion => 5,
            Stage::Tail => 1,
            Stage::Complete => 0,
        }
    }
}

/// What follows a stage.
#[derive(Debug, Clone, Copy, PartialEq, Eq, Structural)]
pub enum Next {
    /// The given stage follows at once.
    Continue(Stage),
    /// The given part of the grammar has to be decoded by the caller; then
    /// the given stage follows.
    Needs(Feature, Stage),
    /// The header is complete.
    Finished,
}

/// How far the decoding of a frame header got.
#[derive(Debug, Clone, Copy, PartialEq, Eq, Structural)]
pub enum Progress {
    /// The header is complete.
    Finished,
    /// The given part of the grammar has to be decoded by the caller;
    /// decoding goes on at the given stage.
    Needs(Feature, Stage),
}

/// What one stage does where the buffer is long enough for it.
pub struct Step {
    /// The cursor after the stage.
    pub pos: int,
    pub state: State,
    pub header: UncompressedHeader,
    pub next: Next,
}

/// Whether the header gives a buffer removal time for operating point `op`.
pub open spec fn has_removal_time(sh: ObuSequenceHeader, header: ObuHeader, op: int) -> bool {
    let point = sh.operating_points[op];
    point.decoder_model_present_for_this_op && (point.idc == 0 || header.spec_in_operating_point(
        point.idc,
    ))
}

/// The number of bits that the buffer removal times of the first `k`
/// operating points take.
pub open spec fn removal_time_bits(sh: ObuSequenceHeader, header: ObuHeader, k: nat) -> nat
    decreases k,
{
    if k == 0 {
        0
    } else {
        removal_time_bits(sh, header, (k - 1) as nat) + width_if(
            has_removal_time(sh, header, k - 1),
            sh.spec_buffer_removal_time_bits(),
        )
    }
}

/// `times` after the buffer removal times of the first `k` operating points
/// have been read into it from bit `pos` on: the time of each point that
/// has one, and `None` for each that has none.
pub open spec fn removal_times(
    bytes: Seq<u8>,
    pos: int,
    sh: ObuSequenceHeader,
    header: ObuHeader,
    times: [Option<u64>; 32],
    k: nat,
) -> [Option<u64>; 32]
    decreases k,
{
    if k == 0 {
        times
    } else {
        vstd::array::spec_array_update(
            removal_times(bytes, pos, sh, header, times, (k - 1) as nat),
            k - 1,
            if has_removal_time(sh, header, k - 1) {
                Some(
                    field(
                        bytes,
                        pos + removal_time_bits(sh, header, (k - 1) as nat),
                        sh.spec_buffer_removal_time_bits(),
                    ),
                )
            } else {
                None
            },
        )
    }
}

/// The removal times of more operating points take no fewer bits.
pub proof fn lemma_removal_time_bits_grow(sh: ObuSequenceHeader, header: ObuHeader, j: nat, k: nat)
    requires
        j <= k,
    ensures
        removal_time_bits(sh, header, j) <= removal_time_bits(sh, header, k),
    decreases k,
{
    if j < k {
        lemma_removal_time_bits_grow(sh, header, j, (k - 1) as nat);
    }
}

/// `Start` under a reduced still picture header: a shown key frame, of
/// which nothing is read.
pub open spec fn start_still_step(pos: int, st: State, uh: UncompressedHeader) -> Step {
    Step {
        pos,
        state: State { frame_is_intra: true, ..st },
        header: UncompressedHeader {
            show_existing_frame: false,
            frame_type: KEY_FRAME,
            show_frame: true,
            showable_frame: false,
            ..uh
        },
        next: Next::Continue(Stage::Setup),
    }
}

/// `Start` where an existing frame is shown: the slot of that frame.
pub open spec fn start_existing_step(
    bytes: Seq<u8>,
    pos: int,
    sh: ObuSequenceHeader,
    st: State,
    uh: UncompressedHeader,
) -> Step {
    Step {
        pos: pos + 4,
        state: st,
        header: UncompressedHeader {
            show_existing_frame: true,
            frame_to_show_map_idx: field(bytes, pos + 1, 3) as usize,
            ..uh
        },
        next: if sh.spec_needs_temporal_point_info() {
            Next::Needs(Feature::TemporalPointInfo, Stage::ExistingFrame)
        } else {
            Next::Continue(Stage::ExistingFrame)
        },
    }
}

/// `Start` of a frame of its own: its type, and whether it is shown.
pub open spec fn start_frame_step(
    bytes: Seq<u8>,
    pos: int,
    sh: ObuSequenceHeader,
    st: State,
    uh: UncompressedHeader,
) -> Step {
    let frame_type = field(bytes, pos + 1, 2);
    let show_frame = flag(bytes, pos + 3);
    Step {
        pos: pos + 4,
        state: State {
            frame_is_intra: frame_type == INTRA_ONLY_FRAME || frame_type == KEY_FRAME,
            ..st
        },
        header: UncompressedHeader { show_existing_frame: false, frame_type, show_frame, ..uh },
        next: if show_frame && sh.spec_needs_temporal_point_info() {
            Next::Needs(Feature::TemporalPointInfo, Stage::Shown)
        } else {
            Next::Continue(Stage::Shown)
        },
    }
}

/// `Start`: whether an existing frame is shown, and if not, the type of the
/// frame and whether it is shown.
pub open spec fn start_step(
    bytes: Seq<u8>,
    pos: int,
    sh: ObuSequenceHeader,
    st: State,
    uh: UncompressedHeader,
) -> Step {
    if sh.reduced_still_picture_header {
        start_still_step(pos, st, uh)
    } else if flag(bytes, pos) {
        start_existing_step(bytes, pos, sh, st, uh)
    } else {
        start_frame_step(bytes, pos, sh, st, uh)
    }
}

/// `ExistingFrame`: the frame in slot `frame_to_show_map_idx` is shown
/// again; nothing else of the header is read.
pub open spec fn existing_frame_step(
    bytes: Seq<u8>,
    pos: int,
    sh: ObuSequenceHeader,
    st: State,
    uh: UncompressedHeader,
) -> Step {
    let ids = sh.frame_id_numbers_present_flag;
    let frame_type = st.ref_frame_type[uh.frame_to_show_map_idx as int];
    Step {
        pos: pos + width_if(ids, sh.spec_id_len()),
        state: st,
        header: UncompressedHeader {
            refresh_frame_flags: if frame_type == KEY_FRAME {
                ALL_FRAMES
            } else {
                0
            },
            display_frame_id: if ids {
                field(bytes, pos, sh.spec_id_len())
            } else {
                uh.display_frame_id
            },
            frame_type,
            ..uh
        },
        next: if sh.film_grain_params_present {
            Next::Needs(Feature::LoadGrainParams, Stage::Complete)
        } else {
            Next::Finished
        },
    }
}

/// `Shown`: whether the frame can be shown later, and whether it is coded
/// in error resilient mode.
pub open spec fn shown_step(bytes: Seq<u8>, pos: int, st: State, uh: UncompressedHeader) -> Step {
    let at1 = pos + width_if(!uh.show_frame, 1);
    let forced = uh.frame_type == SWITCH_FRAME || (uh.frame_type == KEY_FRAME && uh.show_frame);
    Step {
        pos: at1 + width_if(!forced, 1),
        state: st,
        header: UncompressedHeader {
            showable_frame: if uh.show_frame {
                uh.frame_type != KEY_FRAME
            } else {
                flag(bytes, pos)
            },
            error_resilient_mode: forced || flag(bytes, at1),
            ..uh
        },
        next: Next::Continue(Stage::Setup),
    }
}

/// `Setup`: a shown key frame clears the references; then the coding tools
/// of the frame and its id.
pub open spec fn setup_step(
    bytes: Seq<u8>,
    pos: int,
    sh: ObuSequenceHeader,
    old_frame_id: Option<u64>,
    st: State,
    uh: UncompressedHeader,
) -> Step {
    let reset = uh.frame_type == KEY_FRAME && uh.show_frame;
    let at1 = pos + 1;
    let reads_tools = sh.seq_force_screen_content_tools == SELECT_SCREEN_CONTENT_TOOLS;
    let allow_screen_content_tools = if reads_tools {
        flag(bytes, at1)
    } else {
        sh.seq_force_screen_content_tools != 0
    };
    let at2 = at1 + width_if(reads_tools, 1);
    let reads_mv = allow_screen_content_tools && sh.seq_force_integer_mv == SELECT_INTEGER_MV;
    let at3 = at2 + width_if(reads_mv, 1);
    let ids = sh.frame_id_numbers_present_flag;
    Step {
        pos: at3 + width_if(ids, sh.spec_id_len()),
        state: State {
            ref_valid: if reset {
                [false, false, false, false, false, false, false, false]
            } else {
                st.ref_valid
            },
            ref_order_hint: if reset {
                [0u64, 0u64, 0u64, 0u64, 0u64, 0u64, 0u64, 0u64]
            } else {
                st.ref_order_hint
            },
            order_hints: if reset {
                [st.order_hints[0], 0u64, 0u64, 0u64, 0u64, 0u64, 0u64, 0u64]
            } else {
                st.order_hints
            },
            prev_frame_id: if ids {
                match old_frame_id {
                    Some(id) => id,
                    None => 0,
                }
            } else {
                st.prev_frame_id
            },
            ..st
        },
        header: UncompressedHeader {
            disable_cdf_update: flag(bytes, pos),
            allow_screen_content_tools,
            force_integer_mv: if st.frame_is_intra {
                true
            } else if reads_mv {
                flag(bytes, at2)
            } else {
                allow_screen_content_tools && sh.seq_force_integer_mv != 0
            },
            current_frame_id: if ids {
                field(bytes, at3, sh.spec_id_len())
            } else {
                0
            },
            ..uh
        },
        next: if ids {
            Next::Needs(Feature::MarkRefFrames, Stage::References)
        } else {
            Next::Continue(Stage::References)
        },
    }
}

/// `References`: whether the frame has a size of its own, its order hint,
/// the reference its entropy contexts come from, and its buffer removal
/// times.
pub open spec fn references_step(
    bytes: Seq<u8>,
    pos: int,
    sh: ObuSequenceHeader,
    header: ObuHeader,
    st: State,
    uh: UncompressedHeader,
) -> Step {
    let reads_override = uh.frame_type != SWITCH_FRAME && !sh.reduced_still_picture_header;
    let at1 = pos + width_if(reads_override, 1);
    let hint_bits = st.order_hint_bits as nat;
    let at2 = at1 + hint_bits;
    let reads_primary = !(st.frame_is_intra || uh.error_resilient_mode);
    let at3 = at2 + width_if(reads_primary, 3);
    let model = sh.decoder_model_info_present_flag;
    let at4 = at3 + width_if(model, 1);
    let reads_times = model && flag(bytes, at3);
    let points = (sh.operating_points_cnt_minus_1 + 1) as nat;
    Step {
        pos: at4 + width_if(reads_times, removal_time_bits(sh, header, points)),
        state: State { order_hint: field(bytes, at1, hint_bits), ..st },
        header: UncompressedHeader {
            frame_size_override_flag: if uh.frame_type == SWITCH_FRAME {
                true
            } else {
                !sh.reduced_still_picture_header && flag(bytes, pos)
            },
            primary_ref_frame: if reads_primary {
                field(bytes, at2, 3)
            } else {
                PRIMARY_REF_NONE
            },
            buffer_removal_time: if reads_times {
                removal_times(bytes, at4, sh, header, uh.buffer_removal_time, points)
            } else {
                uh.buffer_removal_time
            },
            allow_high_precision_mv: false,
            use_ref_frame_mvs: false,
            allow_intrabc: false,
            ..uh
        },
        next: Next::Continue(Stage::Refresh),
    }
}

/// `Refresh`: the slots that the frame refreshes and, in error resilient
/// mode, the order hint that it expects in each slot; a slot that holds
/// another order hint is no longer valid.
pub open spec fn refresh_step(
    bytes: Seq<u8>,
    pos: int,
    sh: ObuSequenceHeader,
    st: State,
    uh: UncompressedHeader,
) -> Step {
    let all = uh.frame_type == SWITCH_FRAME || (uh.frame_type == KEY_FRAME && uh.show_frame);
    let refresh_frame_flags = if all {
        ALL_FRAMES
    } else {
        field(bytes, pos, 8)
    };
    let at1 = pos + width_if(!all, 8);
    let reads_hints = (!st.frame_is_intra || refresh_frame_flags != ALL_FRAMES)
        && uh.error_resilient_mode && sh.enable_order_hint;
    let hint_bits = st.order_hint_bits as nat;
    let hint = |i: int| field(bytes, at1 + i * hint_bits, hint_bits);
    let valid = |i: int| st.ref_valid[i] && hint(i) == st.ref_order_hint[i];
    Step {
        pos: at1 + width_if(reads_hints, 8 * hint_bits),
        state: State {
            ref_valid: if reads_hints {
                [valid(0), valid(1), valid(2), valid(3), valid(4), valid(5), valid(6), valid(7)]
            } else {
                st.ref_valid
            },
            ..st
        },
        header: UncompressedHeader {
            refresh_frame_flags,
            ref_order_hint: if reads_hints {
                [hint(0), hint(1), hint(2), hint(3), hint(4), hint(5), hint(6), hint(7)]
            } else {
                uh.ref_order_hint
            },
            ..uh
        },
        next: if st.frame_is_intra {
            Next::Needs(Feature::FrameSize, Stage::IntraRenderSize)
        } else {
            Next::Continue(Stage::ShortSignaling)
        },
    }
}

/// `ShortSignaling`: whether the references of an inter frame are derived
/// from two of them, and if so, those two.
pub open spec fn short_signaling_step(
    bytes: Seq<u8>,
    pos: int,
    sh: ObuSequenceHeader,
    st: State,
    uh: UncompressedHeader,
) -> Step {
    let short = sh.enable_order_hint && flag(bytes, pos);
    let at1 = pos + width_if(sh.enable_order_hint, 1);
    Step {
        pos: at1 + width_if(short, 6),
        state: st,
        header: UncompressedHeader {
            frame_refs_short_signaling: short,
            last_frame_idx: if short {
                field(bytes, at1, 3) as usize
            } else {
                uh.last_frame_idx
            },
            gold_frame_idx: if short {
                field(bytes, at1 + 3, 3) as usize
            } else {
                uh.gold_frame_idx
            },
            ..uh
        },
        next: if short {
            Next::Needs(Feature::SetFrameRefs, Stage::ReferenceIndices)
        } else {
            Next::Continue(Stage::ReferenceIndices)
        },
    }
}

/// `IntraTail`: whether an intra frame may copy blocks within itself.
pub open spec fn intra_tail_step(bytes: Seq<u8>, pos: int, st: State, uh: UncompressedHeader) -> Step {
    let reads = uh.allow_screen_content_tools && st.upscaled_width == st.frame_width;
    Step {
        pos: pos + width_if(reads, 1),
        state: st,
        header: UncompressedHeader {
            allow_intrabc: if reads {
                flag(bytes, pos)
            } else {
                uh.allow_intrabc
            },
            ..uh
        },
        next: Next::Continue(Stage::Tail),
    }
}

/// The frame id that a reference of a frame is expected to have, where the
/// header gives the difference `delta` to the id of the frame itself: that
/// id less the difference, modulo `2^id_len`.
pub open spec fn expected_id(current_frame_id: u64, id_len: nat, delta: int) -> u64 {
    ((current_frame_id + pow2(id_len) - delta) % (pow2(id_len) as int)) as u64
}

/// `ReferenceIndices`: for each of the seven references of an inter frame
/// its slot, unless the references were signalled in short, and the frame
/// id expected in it, where frame ids are used.
pub open spec fn reference_indices_step(
    bytes: Seq<u8>,
    pos: int,
    sh: ObuSequenceHeader,
    st: State,
    uh: UncompressedHeader,
) -> Step {
    let slot_bits = width_if(!uh.frame_refs_short_signaling, 3);
    let ids = sh.frame_id_numbers_present_flag;
    let delta_bits = (sh.delta_frame_id_length_minus_2 + 2) as nat;
    let each = slot_bits + width_if(ids, delta_bits);
    let slot = |i: int| field(bytes, pos + i * each, 3) as usize;
    let delta = |i: int| field(bytes, pos + i * each + slot_bits, delta_bits) + 1;
    let expected = |i: int| expected_id(uh.current_frame_id, sh.spec_id_len(), delta(i));
    Step {
        pos: pos + 7 * each,
        state: State {
            delta_frame_id: if ids {
                delta(6) as u64
            } else {
                st.delta_frame_id
            },
            ..st
        },
        header: UncompressedHeader {
            ref_frame_idx: if uh.frame_refs_short_signaling {
                uh.ref_frame_idx
            } else {
                [slot(0), slot(1), slot(2), slot(3), slot(4), slot(5), slot(6)]
            },
            expected_frame_id: if ids {
                [
                    expected(0),
                    expected(1),
                    expected(2),
                    expected(3),
                    expected(4),
                    expected(5),
                    expected(6),
                ]
            } else {
                uh.expected_frame_id
            },
            ..uh
        },
        next: if uh.frame_size_override_flag && !uh.error_resilient_mode {
            Next::Needs(Feature::FrameSizeWithRefs, Stage::Motion)
        } else {
            Next::Needs(Feature::FrameSize, Stage::InterRenderSize)
        },
    }
}

/// `Motion`: the motion vector tools of an inter frame, and the order hint
/// of each of its references.
pub open spec fn motion_step(
    bytes: Seq<u8>,
    pos: int,
    sh: ObuSequenceHeader,
    st: State,
    uh: UncompressedHeader,
) -> Step {
    let reads_precision = !uh.force_integer_mv;
    let at1 = pos + width_if(reads_precision, 1);
    let at2 = at1 + 1;
    let reads_mvs = !uh.error_resilient_mode && sh.enable_ref_frame_mvs;
    let hint = |i: int| st.ref_order_hint[uh.ref_frame_idx[i] as int];
    let bias = |i: int|
        if sh.enable_order_hint {
            st.ref_frame_sign_bias[i]
        } else {
            0u64
        };
    Step {
        pos: at2 + width_if(reads_mvs, 1),
        state: State {
            order_hints: [
                st.order_hints[0],
                hint(0),
                hint(1),
                hint(2),
                hint(3),
                hint(4),
                hint(5),
                hint(6),
            ],
            ref_frame_sign_bias: [
                st.ref_frame_sign_bias[0],
                bias(1),
                bias(2),
                bias(3),
                bias(4),
                bias(5),
                bias(6),
                bias(7),
            ],
            ..st
        },
        header: UncompressedHeader {
            allow_high_precision_mv: reads_precision && flag(bytes, pos),
            is_motion_mode_switchable: flag(bytes, at1),
            use_ref_frame_mvs: reads_mvs && flag(bytes, at2),
            ..uh
        },
        next: Next::Continue(Stage::Tail),
    }
}

/// `Tail`: whether the entropy contexts are kept at the end of the frame,
/// and where they are taken from at its start.
pub open spec fn tail_step(
    bytes: Seq<u8>,
    pos: int,
    sh: ObuSequenceHeader,
    st: State,
    uh: UncompressedHeader,
) -> Step {
    let forced = sh.reduced_still_picture_header || uh.disable_cdf_update;
    Step {
        pos: pos + width_if(!forced, 1),
        state: st,
        header: UncompressedHeader { disable_frame_end_update_cdf: forced || flag(bytes, pos), ..uh },
        next: if uh.primary_ref_frame == PRIMARY_REF_NONE {
            Next::Needs(Feature::InitNonCoeffCdfs, Stage::Complete)
        } else {
            Next::Needs(Feature::LoadCdfs, Stage::Complete)
        },
    }
}

/// What the stage `stage` does.
pub open spec fn step(
    stage: Stage,
    bytes: Seq<u8>,
    pos: int,
    sh: ObuSequenceHeader,
    header: ObuHeader,
    old_frame_id: Option<u64>,
    st: State,
    uh: UncompressedHeader,
) -> Step {
    match stage {
        Stage::Start => start_step(bytes, pos, sh, st, uh),
        Stage::ExistingFrame => existing_frame_step(bytes, pos, sh, st, uh),
        Stage::Shown => shown_step(bytes, pos, st, uh),
        Stage::Setup => setup_step(bytes, pos, sh, old_frame_id, st, uh),
        Stage::References => references_step(bytes, pos, sh, header, st, uh),
        Stage::Refresh => refresh_step(bytes, pos, sh, st, uh),
        Stage::ShortSignaling => short_signaling_step(bytes, pos, sh, st, uh),
        Stage::IntraRenderSize => Step {
            pos,
            state: st,
            header: uh,
            next: Next::Needs(Feature::RenderSize, Stage::IntraTail),
        },
        Stage::IntraTail => intra_tail_step(bytes, pos, st, uh),
        Stage::ReferenceIndices => reference_indices_step(bytes, pos, sh, st, uh),
        Stage::InterRenderSize => Step {
            pos,
            state: st,
            header: uh,
            next: Next::Needs(Feature::RenderSize, Stage::Motion),
        },
        Stage::Motion => motion_step(bytes, pos, sh, st, uh),
        Stage::Tail => tail_step(bytes, pos, sh, st, uh),
        Stage::Complete => Step { pos, state: st, header: uh, next: Next::Finished },
    }
}

/// Where decoding stands once it has gone as far as it can.
pub struct Outcome {
    /// The cursor, where decoding did not fail.
    pub pos: int,
    pub state: State,
    pub header: UncompressedHeader,
    pub result: Result<Progress, Error>,
}

/// Decoding from `stage` on: stage after stage, until a part of the grammar
/// is needed that the caller has to decode, the header is complete, or the
/// buffer ends within a stage. A stage that the buffer ends in changes
/// neither the state nor the header.
pub open spec fn run(
    stage: Stage,
    bytes: Seq<u8>,
    pos: int,
    sh: ObuSequenceHeader,
    header: ObuHeader,
    old_frame_id: Option<u64>,
    st: State,
    uh: UncompressedHeader,
) -> Outcome
    decreases stage.rank(),
    via run_descends
{
    let s = step(stage, bytes, pos, sh, header, old_frame_id, st, uh);
    if s.pos > 8 * bytes.len() {
        Outcome { pos, state: st, header: uh, result: Err(Error::EndOfStream) }
    } else {
        match s.next {
            Next::Continue(next) => run(next, bytes, s.pos, sh, header, old_frame_id, s.state, s.header),
            Next::Needs(feature, next) => Outcome {
                pos: s.pos,
                state: s.state,
                header: s.header,
                result: Ok(Progress::Needs(feature, next)),
            },
            Next::Finished => Outcome {
                pos: s.pos,
                state: s.state,
                header: s.header,
                result: Ok(Progress::Finished),
            },
        }
    }
}

/// A stage only ever continues with one of lower rank.
pub proof fn lemma_continue_descends(
    stage: Stage,
    bytes: Seq<u8>,
    pos: int,
    sh: ObuSequenceHeader,
    header: ObuHeader,
    old_frame_id: Option<u64>,
    st: State,
    uh: UncompressedHeader,
)
    ensures
        step(stage, bytes, pos, sh, header, old_frame_id, st, uh).next matches Next::Continue(next)
            ==> next.rank() < stage.rank(),
{
    match stage {
        Stage::Start => {
            assert(start_still_step(pos, st, uh).next == Next::Continue(Stage::Setup));
            assert(start_existing_step(bytes, pos, sh, st, uh).next matches Next::Continue(next)
                ==> next == Stage::ExistingFrame);
            assert(start_frame_step(bytes, pos, sh, st, uh).next matches Next::Continue(next)
                ==> next == Stage::Shown);
        },
        Stage::ExistingFrame => {
            assert(!(existing_frame_step(bytes, pos, sh, st, uh).next is Continue));
        },
        Stage::Shown => {
            assert(shown_step(bytes, pos, st, uh).next == Next::Continue(Stage::Setup));
        },
        Stage::Setup => {
            assert(setup_step(bytes, pos, sh, old_frame_id, st, uh).next matches Next::Continue(
                next,
            ) ==> next == Stage::References);
        },
        Stage::References => {
            assert(references_step(bytes, pos, sh, header, st, uh).next == Next::Continue(
                Stage::Refresh,
            ));
        },
        Stage::Refresh => {
            assert(refresh_step(bytes, pos, sh, st, uh).next matches Next::Continue(next) ==> next
                == Stage::ShortSignaling);
        },
        Stage::ShortSignaling => {
            assert(short_signaling_step(bytes, pos, sh, st, uh).next matches Next::Continue(next)
                ==> next == Stage::ReferenceIndices);
        },
        Stage::IntraRenderSize => {},
        Stage::IntraTail => {
            assert(intra_tail_step(bytes, pos, st, uh).next == Next::Continue(Stage::Tail));
        },
        Stage::ReferenceIndices => {
            assert(!(reference_indices_step(bytes, pos, sh, st, uh).next is Continue));
        },
        Stage::InterRenderSize => {},
        Stage::Motion => {
            assert(motion_step(bytes, pos, sh, st, uh).next == Next::Continue(Stage::Tail));
        },
        Stage::Tail => {
            assert(!(tail_step(bytes, pos, sh, st, uh).next is Continue));
        },
        Stage::Complete => {},
    }
}

#[via_fn]
proof fn run_descends(
    stage: Stage,
    bytes: Seq<u8>,
    pos: int,
    sh: ObuSequenceHeader,
    header: ObuHeader,
    old_frame_id: Option<u64>,
    st: State,
    uh: UncompressedHeader,
) {
    lemma_continue_descends(stage, bytes, pos, sh, header, old_frame_id, st, uh);
}

/// Decoding fails only where the buffer ends.
pub proof fn lemma_run_fails_at_end_only(
    stage: Stage,
    bytes: Seq<u8>,
    pos: int,
    sh: ObuSequenceHeader,
    header: ObuHeader,
    old_frame_id: Option<u64>,
    st: State,
    uh: UncompressedHeader,
)
    ensures
        run(stage, bytes, pos, sh, header, old_frame_id, st, uh).result matches Err(e) ==> e
            == Error::EndOfStream,
    decreases stage.rank(),
{
    lemma_continue_descends(stage, bytes, pos, sh, header, old_frame_id, st, uh);
    let s = step(stage, bytes, pos, sh, header, old_frame_id, st, uh);
    if s.pos <= 8 * bytes.len() {
        if let Next::Continue(next) = s.next {
            lemma_run_fails_at_end_only(next, bytes, s.pos, sh, header, old_frame_id, s.state, s.header);
        }
    }
}

/// What a stage owes whose work on a long enough buffer is `step`: that
/// work, if the buffer reaches to the end of the stage; `EndOfStream`, with
/// the state and the header as they were, if it does not.
pub open spec fn stage_ran(
    before: &BitStream,
    after: &BitStream,
    st0: State,
    st1: State,
    uh0: UncompressedHeader,
    uh1: UncompressedHeader,
    r: Result<Next, Error>,
    step: Step,
) -> bool {
    &&& after@ == before@
    &&& after.same_leb128(before)
    &&& 0 <= before.pos() <= after.pos() <= 8 * before@.len()
    &&& if step.pos <= 8 * before@.len() {
        r == Ok::<Next, Error>(step.next) && after.pos() == step.pos && st1 == step.state && uh1
            == step.header
    } else {
        r == Err::<Next, Error>(Error::EndOfStream) && st1 == st0 && uh1 == uh0
    }
}

/// What decoding from some stage on owes, where `outcome` is what `run`
/// gives for it: that result, state and header; the cursor where `outcome`
/// puts it, unless the buffer ended within a stage.
pub open spec fn advanced(
    before: &BitStream,
    after: &BitStream,
    st1: State,
    uh1: UncompressedHeader,
    r: Result<Progress, Error>,
    outcome: Outcome,
) -> bool {
    &&& after@ == before@
    &&& after.same_leb128(before)
    &&& 0 <= before.pos() <= after.pos() <= 8 * before@.len()
    &&& r == outcome.result
    &&& st1 == outcome.state
    &&& uh1 == outcome.header
    &&& r is Ok ==> after.pos() == outcome.pos
}

/// What decoding a whole header without help from outside gives: the
/// header where no part of the grammar was needed that lies outside this
/// library, and else the first such part as an error.
pub open spec fn unaided(outcome: Outcome) -> Result<UncompressedHeader, Error> {
    match outcome.result {
        Ok(Progress::Finished) => Ok(outcome.header),
        Ok(Progress::Needs(feature, _)) => Err(Error::UnimplementedFeature(feature)),
        Err(e) => Err(e),
    }
}

impl UncompressedHeader {
    /// The header before anything is decoded: every field zero or false.
    pub open spec fn empty() -> UncompressedHeader {
        UncompressedHeader {
            show_existing_frame: false,
            frame_type: 0,
            show_frame: false,
            showable_frame: false,
            frame_to_show_map_idx: 0,
            refresh_frame_flags: 0,
            display_frame_id: 0,
            error_resilient_mode: false,
            disable_cdf_update: false,
            allow_screen_content_tools: false,
            force_integer_mv: false,
            current_frame_id: 0,
            frame_size_override_flag: false,
            primary_ref_frame: 0,
            buffer_removal_time: vstd::array::spec_array_fill_for_copy_type::<Option<u64>, 32>(None),
            allow_high_precision_mv: false,
            use_ref_frame_mvs: false,
            allow_intrabc: false,
            ref_order_hint: [0u64, 0u64, 0u64, 0u64, 0u64, 0u64, 0u64, 0u64],
            frame_refs_short_signaling: false,
            last_frame_idx: 0,
            gold_frame_idx: 0,
            ref_frame_idx: [0usize, 0usize, 0usize, 0usize, 0usize, 0usize, 0usize],
            expected_frame_id: [0u64, 0u64, 0u64, 0u64, 0u64, 0u64, 0u64],
            is_motion_mode_switchable: false,
            disable_frame_end_update_cdf: false,
        }
    }

    /// Every index into the reference slots is below 8.
    pub open spec fn wf(self) -> bool {
        &&& self.frame_to_show_map_idx < 8
        &&& self.ref_frame_idx[0] < 8
        &&& self.ref_frame_idx[1] < 8
        &&& self.ref_frame_idx[2] < 8
        &&& self.ref_frame_idx[3] < 8
        &&& self.ref_frame_idx[4] < 8
        &&& self.ref_frame_idx[5] < 8
        &&& self.ref_frame_idx[6] < 8
    }

    /// Runs `Start` under a reduced still picture header.
    fn start_still(&mut self, b: &mut BitStream, state: &mut State) -> (r: Result<Next, Error>)
        requires
            old(self).wf(),
        ensures
            stage_ran(
                old(b),
                final(b),
                *old(state),
                *final(state),
                *old(self),
                *final(self),
                r,
                start_still_step(old(b).pos(), *old(state), *old(self)),
            ),
            final(self).wf(),
    {
        proof {
            use_type_invariant(&*b);
            b.lemma_in_bounds();
        }
        *state = State { frame_is_intra: true, ..*state };
        *self = UncompressedHeader {
            show_existing_frame: false,
            frame_type: KEY_FRAME,
            show_frame: true,
            showable_frame: false,
            ..*self
        };
        Ok(Next::Continue(Stage::Setup))
    }

    /// Runs `Start` after the flag that says that an existing frame is shown.
    fn start_existing(&mut self, b: &mut BitStream, sh: &ObuSequenceHeader, state: &mut State) -> (r:
        Result<Next, Error>)
        requires
            old(b).pos() >= 1,
            old(self).wf(),
        ensures
            stage_ran(
                old(b),
                final(b),
                *old(state),
                *final(state),
                *old(self),
                *final(self),
                r,
                start_existing_step(old(b)@, old(b).pos() - 1, *sh, *old(state), *old(self)),
            ),
            final(self).wf(),
    {
        let frame_to_show_map_idx = b.f(3)? as usize;
        proof {
            lemma2_to64();
        }
        *self = UncompressedHeader { show_existing_frame: true, frame_to_show_map_idx, ..*self };
        if sh.needs_temporal_point_info() {
            Ok(Next::Needs(Feature::TemporalPointInfo, Stage::ExistingFrame))
        } else {
            Ok(Next::Continue(Stage::ExistingFrame))
        }
    }

    /// Runs `Start` after the flag that says that the frame is one of its own.
    fn start_frame(&mut self, b: &mut BitStream, sh: &ObuSequenceHeader, state: &mut State) -> (r:
        Result<Next, Error>)
        requires
            old(b).pos() >= 1,
            old(self).wf(),
        ensures
            stage_ran(
                old(b),
                final(b),
                *old(state),
                *final(state),
                *old(self),
                *final(self),
                r,
                start_frame_step(old(b)@, old(b).pos() - 1, *sh, *old(state), *old(self)),
            ),
            final(self).wf(),
    {
        let frame_type = b.f(2)?;
        let show_frame = b.flag()?;
        *state = State {
            frame_is_intra: frame_type == INTRA_ONLY_FRAME || frame_type == KEY_FRAME,
            ..*state
        };
        *self = UncompressedHeader { show_existing_frame: false, frame_type, show_frame, ..*self };
        if show_frame && sh.needs_temporal_point_info() {
            Ok(Next::Needs(Feature::TemporalPointInfo, Stage::Shown))
        } else {
            Ok(Next::Continue(Stage::Shown))
        }
    }

    /// Runs the stage `Start`.
    fn start(&mut self, b: &mut BitStream, sh: &ObuSequenceHeader, state: &mut State) -> (r: Result<
        Next,
        Error,
    >)
        requires
            old(self).wf(),
            old(state).wf(),
        ensures
            stage_ran(
                old(b),
                final(b),
                *old(state),
                *final(state),
                *old(self),
                *final(self),
                r,
                start_step(old(b)@, old(b).pos(), *sh, *old(state), *old(self)),
            ),
            final(self).wf(),
    {
        proof {
            use_type_invariant(&*b);
            b.lemma_in_bounds();
        }
        if sh.reduced_still_picture_header {
            self.start_still(b, state)
        } else if b.flag()? {
            self.start_existing(b, sh, state)
        } else {
            self.start_frame(b, sh, state)
        }
    }

    /// Runs the stage `ExistingFrame`.
    fn existing_frame(&mut self, b: &mut BitStream, sh: &ObuSequenceHeader, state: &mut State) -> (r:
        Result<Next, Error>)
        requires
            sh.wf(),
            old(self).wf(),
        ensures
            stage_ran(
                old(b),
                final(b),
                *old(state),
                *final(state),
                *old(self),
                *final(self),
                r,
                existing_frame_step(old(b)@, old(b).pos(), *sh, *old(state), *old(self)),
            ),
            final(self).wf(),
    {
        proof {
            use_type_invariant(&*b);
            b.lemma_in_bounds();
        }
        let display_frame_id = if sh.frame_id_numbers_present_flag {
            b.f(sh.id_len())?
        } else {
            self.display_frame_id
        };
        let frame_type = state.ref_frame_type[self.frame_to_show_map_idx];
        *self = UncompressedHeader {
            refresh_frame_flags: if frame_type == KEY_FRAME {
                ALL_FRAMES
            } else {
                0
            },
            display_frame_id,
            frame_type,
            ..*self
        };
        if sh.film_grain_params_present {
            Ok(Next::Needs(Feature::LoadGrainParams, Stage::Complete))
        } else {
            Ok(Next::Finished)
        }
    }

    /// Runs the stage `Shown`.
    fn shown(&mut self, b: &mut BitStream, state: &mut State) -> (r: Result<Next, Error>)
        requires
            old(self).wf(),
        ensures
            stage_ran(
                old(b),
                final(b),
                *old(state),
                *final(state),
                *old(self),
                *final(self),
                r,
                shown_step(old(b)@, old(b).pos(), *old(state), *old(self)),
            ),
            final(self).wf(),
    {
        proof {
            use_type_invariant(&*b);
            b.lemma_in_bounds();
        }
        let showable_frame = if self.show_frame {
            self.frame_type != KEY_FRAME
        } else {
            b.flag()?
        };
        let forced = self.frame_type == SWITCH_FRAME || (self.frame_type == KEY_FRAME
            && self.show_frame);
        let error_resilient_mode = forced || b.flag()?;
        *self = UncompressedHeader { showable_frame, error_resilient_mode, ..*self };
        Ok(Next::Continue(Stage::Setup))
    }

    /// Runs the stage `Setup`.
    fn setup(
        &mut self,
        b: &mut BitStream,
        sh: &ObuSequenceHeader,
        old_frame_id: Option<u64>,
        state: &mut State,
    ) -> (r: Result<Next, Error>)
        requires
            sh.wf(),
            old(self).wf(),
        ensures
            stage_ran(
                old(b),
                final(b),
                *old(state),
                *final(state),
                *old(self),
                *final(self),
                r,
                setup_step(old(b)@, old(b).pos(), *sh, old_frame_id, *old(state), *old(self)),
            ),
            final(self).wf(),
    {
        let disable_cdf_update = b.flag()?;
        let allow_screen_content_tools = if sh.seq_force_screen_content_tools
            == SELECT_SCREEN_CONTENT_TOOLS {
            b.flag()?
        } else {
            sh.seq_force_screen_content_tools != 0
        };
        let mut force_integer_mv = false;
        if allow_screen_content_tools {
            if sh.seq_force_integer_mv == SELECT_INTEGER_MV {
                force_integer_mv = b.flag()?;
            } else {
                force_integer_mv = sh.seq_force_integer_mv != 0;
            }
        }
        if state.frame_is_intra {
            force_integer_mv = true;
        }
        let ids = sh.frame_id_numbers_present_flag;
        let current_frame_id = if ids {
            b.f(sh.id_len())?
        } else {
            0
        };
        let reset = self.frame_type == KEY_FRAME && self.show_frame;
        *state = State {
            ref_valid: if reset {
                [false, false, false, false, false, false, false, false]
            } else {
                state.ref_valid
            },
            ref_order_hint: if reset {
                [0, 0, 0, 0, 0, 0, 0, 0]
            } else {
                state.ref_order_hint
            },
            order_hints: if reset {
                [state.order_hints[0], 0, 0, 0, 0, 0, 0, 0]
            } else {
                state.order_hints
            },
            prev_frame_id: if ids {
                match old_frame_id {
                    Some(id) => id,
                    None => 0,
                }
            } else {
                state.prev_frame_id
            },
            ..*state
        };
        *self = UncompressedHeader {
            disable_cdf_update,
            allow_screen_content_tools,
            force_integer_mv,
            current_frame_id,
            ..*self
        };
        if ids {
            Ok(Next::Needs(Feature::MarkRefFrames, Stage::References))
        } else {
            Ok(Next::Continue(Stage::References))
        }
    }

    /// Runs the stage `IntraTail`.
    fn intra_tail(&mut self, b: &mut BitStream, state: &mut State) -> (r: Result<Next, Error>)
        requires
            old(self).wf(),
        ensures
            stage_ran(
                old(b),
                final(b),
                *old(state),
                *final(state),
                *old(self),
                *final(self),
                r,
                intra_tail_step(old(b)@, old(b).pos(), *old(state), *old(self)),
            ),
            final(self).wf(),
    {
        proof {
            use_type_invariant(&*b);
            b.lemma_in_bounds();
        }
        let allow_intrabc = if self.allow_screen_content_tools && state.upscaled_width
            == state.frame_width {
            b.flag()?
        } else {
            self.allow_intrabc
        };
        *self = UncompressedHeader { allow_intrabc, ..*self };
        Ok(Next::Continue(Stage::Tail))
    }

    /// Runs the stage `Tail`.
    fn tail(&mut self, b: &mut BitStream, sh: &ObuSequenceHeader, state: &mut State) -> (r: Result<
        Next,
        Error,
    >)
        requires
            old(self).wf(),
        ensures
            stage_ran(
                old(b),
                final(b),
                *old(state),
                *final(state),
                *old(self),
                *final(self),
                r,
                tail_step(old(b)@, old(b).pos(), *sh, *old(state), *old(self)),
            ),
            final(self).wf(),
    {
        proof {
            use_type_invariant(&*b);
            b.lemma_in_bounds();
        }
        let disable_frame_end_update_cdf = sh.reduced_still_picture_header
            || self.disable_cdf_update || b.flag()?;
        *self = UncompressedHeader { disable_frame_end_update_cdf, ..*self };
        if self.primary_ref_frame == PRIMARY_REF_NONE {
            Ok(Next::Needs(Feature::InitNonCoeffCdfs, Stage::Complete))
        } else {
            Ok(Next::Needs(Feature::LoadCdfs, Stage::Complete))
        }
    }

    /// Runs the stage `Motion`.
    fn motion(&mut self, b: &mut BitStream, sh: &ObuSequenceHeader, state: &mut State) -> (r: Result<
        Next,
        Error,
    >)
        requires
            old(self).wf(),
        ensures
            stage_ran(
                old(b),
                final(b),
                *old(state),
                *final(state),
                *old(self),
                *final(self),
                r,
                motion_step(old(b)@, old(b).pos(), *sh, *old(state), *old(self)),
            ),
            final(self).wf(),
    {
        let allow_high_precision_mv = !self.force_integer_mv && b.flag()?;
        let is_motion_mode_switchable = b.flag()?;
        let use_ref_frame_mvs = !self.error_resilient_mode && sh.enable_ref_frame_mvs && b.flag()?;
        let hints = state.ref_order_hint;
        let idx = self.ref_frame_idx;
        let bias = state.ref_frame_sign_bias;
        let keep = sh.enable_order_hint;
        *state = State {
            order_hints: [
                state.order_hints[0],
                hints[idx[0]],
                hints[idx[1]],
                hints[idx[2]],
                hints[idx[3]],
                hints[idx[4]],
                hints[idx[5]],
                hints[idx[6]],
            ],
            ref_frame_sign_bias: [
                bias[0],
                if keep { bias[1] } else { 0 },
                if keep { bias[2] } else { 0 },
                if keep { bias[3] } else { 0 },
                if keep { bias[4] } else { 0 },
                if keep { bias[5] } else { 0 },
                if keep { bias[6] } else { 0 },
                if keep { bias[7] } else { 0 },
            ],
            ..*state
        };
        *self = UncompressedHeader {
            allow_high_precision_mv,
            is_motion_mode_switchable,
            use_ref_frame_mvs,
            ..*self
        };
        Ok(Next::Continue(Stage::Tail))
    }

    /// Reads the buffer removal times of the operating points into `times`.
    fn read_removal_times(
        b: &mut BitStream,
        sh: &ObuSequenceHeader,
        header: &ObuHeader,
        times: [Option<u64>; 32],
    ) -> (r: Result<[Option<u64>; 32], Error>)
        requires
            sh.wf(),
            header.wf(),
        ensures
            final(b).decoded(
                old(b),
                r,
                removal_times(
                    old(b)@,
                    old(b).pos(),
                    *sh,
                    *header,
                    times,
                    (sh.operating_points_cnt_minus_1 + 1) as nat,
                ),
                old(b).pos() + removal_time_bits(
                    *sh,
                    *header,
                    (sh.operating_points_cnt_minus_1 + 1) as nat,
                ),
            ),
    {
        proof {
            use_type_invariant(&*b);
            b.lemma_in_bounds();
        }
        let ghost bytes = b@;
        let ghost start = b.pos();
        let count = sh.operating_points_cnt_minus_1 + 1;
        let n = sh.buffer_removal_time_bits();
        let mut result = times;
        let mut op_num: usize = 0;
        while op_num < count
            invariant
                op_num <= count == sh.operating_points_cnt_minus_1 + 1 <= 32,
                sh.wf(),
                header.wf(),
                n == sh.spec_buffer_removal_time_bits(),
                b@ == bytes,
                bytes == old(b)@,
                start == old(b).pos(),
                b.same_leb128(old(b)),
                0 <= start <= b.pos() <= 8 * bytes.len(),
                b.pos() == start + removal_time_bits(*sh, *header, op_num as nat),
                result == removal_times(bytes, start, *sh, *header, times, op_num as nat),
            decreases count - op_num,
        {
            let point = sh.operating_points[op_num];
            let ghost before = result;
            let entry = if point.decoder_model_present_for_this_op && (point.idc == 0
                || header.in_operating_point(point.idc)) {
                match b.f(n) {
                    Ok(time) => Some(time),
                    Err(e) => {
                        proof {
                            assert(removal_time_bits(*sh, *header, (op_num + 1) as nat)
                                == removal_time_bits(*sh, *header, op_num as nat) + n);
                            lemma_removal_time_bits_grow(
                                *sh,
                                *header,
                                (op_num + 1) as nat,
                                count as nat,
                            );
                        }
                        return Err(e);
                    },
                }
            } else {
                None
            };
            result[op_num] = entry;
            assert(result =~= vstd::array::spec_array_update(before, op_num as int, entry));
            op_num += 1;
        }
        Ok(result)
    }

    /// Reads the order hints expected in the eight reference slots.
    fn read_order_hints(b: &mut BitStream, n: u64) -> (r: Result<[u64; 8], Error>)
        requires
            n <= 64,
        ensures
            final(b).decoded(
                old(b),
                r,
                [
                    field(old(b)@, old(b).pos(), n as nat),
                    field(old(b)@, old(b).pos() + n, n as nat),
                    field(old(b)@, old(b).pos() + 2 * n, n as nat),
                    field(old(b)@, old(b).pos() + 3 * n, n as nat),
                    field(old(b)@, old(b).pos() + 4 * n, n as nat),
                    field(old(b)@, old(b).pos() + 5 * n, n as nat),
                    field(old(b)@, old(b).pos() + 6 * n, n as nat),
                    field(old(b)@, old(b).pos() + 7 * n, n as nat),
                ],
                old(b).pos() + 8 * n,
            ),
    {
        let h0 = b.f(n)?;
        let h1 = b.f(n)?;
        let h2 = b.f(n)?;
        let h3 = b.f(n)?;
        let h4 = b.f(n)?;
        let h5 = b.f(n)?;
        let h6 = b.f(n)?;
        let h7 = b.f(n)?;
        Ok([h0, h1, h2, h3, h4, h5, h6, h7])
    }

    /// Runs the stage `References`.
    fn references(
        &mut self,
        b: &mut BitStream,
        sh: &ObuSequenceHeader,
        header: &ObuHeader,
        state: &mut State,
    ) -> (r: Result<Next, Error>)
        requires
            sh.wf(),
            header.wf(),
            old(state).wf(),
            old(self).wf(),
        ensures
            stage_ran(
                old(b),
                final(b),
                *old(state),
                *final(state),
                *old(self),
                *final(self),
                r,
                references_step(old(b)@, old(b).pos(), *sh, *header, *old(state), *old(self)),
            ),
            final(self).wf(),
            final(state).wf(),
    {
        let frame_size_override_flag = if self.frame_type == SWITCH_FRAME {
            true
        } else {
            !sh.reduced_still_picture_header && b.flag()?
        };
        let order_hint = b.f(state.order_hint_bits)?;
        let primary_ref_frame = if state.frame_is_intra || self.error_resilient_mode {
            PRIMARY_REF_NONE
        } else {
            b.f(3)?
        };
        let buffer_removal_time = if sh.decoder_model_info_present_flag && b.flag()? {
            Self::read_removal_times(b, sh, header, self.buffer_removal_time)?
        } else {
            self.buffer_removal_time
        };
        *state = State { order_hint, ..*state };
        *self = UncompressedHeader {
            frame_size_override_flag,
            primary_ref_frame,
            buffer_removal_time,
            allow_high_precision_mv: false,
            use_ref_frame_mvs: false,
            allow_intrabc: false,
            ..*self
        };
        Ok(Next::Continue(Stage::Refresh))
    }

    /// Runs the stage `Refresh`.
    fn refresh(&mut self, b: &mut BitStream, sh: &ObuSequenceHeader, state: &mut State) -> (r: Result<
        Next,
        Error,
    >)
        requires
            old(state).wf(),
            old(self).wf(),
        ensures
            stage_ran(
                old(b),
                final(b),
                *old(state),
                *final(state),
                *old(self),
                *final(self),
                r,
                refresh_step(old(b)@, old(b).pos(), *sh, *old(state), *old(self)),
            ),
            final(self).wf(),
            final(state).wf(),
    {
        proof {
            use_type_invariant(&*b);
            b.lemma_in_bounds();
        }
        let all = self.frame_type == SWITCH_FRAME || (self.frame_type == KEY_FRAME
            && self.show_frame);
        let refresh_frame_flags = if all {
            ALL_FRAMES
        } else {
            b.f(8)?
        };
        let reads_hints = (!state.frame_is_intra || refresh_frame_flags != ALL_FRAMES)
            && self.error_resilient_mode && sh.enable_order_hint;
        let ref_order_hint = if reads_hints {
            Self::read_order_hints(b, state.order_hint_bits)?
        } else {
            self.ref_order_hint
        };
        let valid = state.ref_valid;
        let hints = state.ref_order_hint;
        *state = State {
            ref_valid: if reads_hints {
                [
                    valid[0] && ref_order_hint[0] == hints[0],
                    valid[1] && ref_order_hint[1] == hints[1],
                    valid[2] && ref_order_hint[2] == hints[2],
                    valid[3] && ref_order_hint[3] == hints[3],
                    valid[4] && ref_order_hint[4] == hints[4],
                    valid[5] && ref_order_hint[5] == hints[5],
                    valid[6] && ref_order_hint[6] == hints[6],
                    valid[7] && ref_order_hint[7] == hints[7],
                ]
            } else {
                valid
            },
            ..*state
        };
        *self = UncompressedHeader { refresh_frame_flags, ref_order_hint, ..*self };
        if state.frame_is_intra {
            Ok(Next::Needs(Feature::FrameSize, Stage::IntraRenderSize))
        } else {
            Ok(Next::Continue(Stage::ShortSignaling))
        }
    }

    /// Runs the stage `ShortSignaling`.
    fn short_signaling(&mut self, b: &mut BitStream, sh: &ObuSequenceHeader, state: &mut State) -> (r:
        Result<Next, Error>)
        requires
            old(self).wf(),
        ensures
            stage_ran(
                old(b),
                final(b),
                *old(state),
                *final(state),
                *old(self),
                *final(self),
                r,
                short_signaling_step(old(b)@, old(b).pos(), *sh, *old(state), *old(self)),
            ),
            final(self).wf(),
    {
        proof {
            use_type_invariant(&*b);
            b.lemma_in_bounds();
        }
        let short = sh.enable_order_hint && b.flag()?;
        let last_frame_idx = if short {
            b.f(3)? as usize
        } else {
            self.last_frame_idx
        };
        let gold_frame_idx = if short {
            b.f(3)? as usize
        } else {
            self.gold_frame_idx
        };
        *self = UncompressedHeader {
            frame_refs_short_signaling: short,
            last_frame_idx,
            gold_frame_idx,
            ..*self
        };
        if short {
            Ok(Next::Needs(Feature::SetFrameRefs, Stage::ReferenceIndices))
        } else {
            Ok(Next::Continue(Stage::ReferenceIndices))
        }
    }

    /// The slot of one reference, or `slot` where the references were
    /// signalled in short, and the difference of its frame id to that of
    /// the frame, or 0 where frame ids are not used.
    fn read_reference(b: &mut BitStream, short: bool, ids: bool, delta_bits: u64, slot: usize) -> (r:
        Result<(usize, u64), Error>)
        requires
            delta_bits <= 17,
            slot < 8,
        ensures
            final(b).decoded(
                old(b),
                r,
                (
                    if short {
                        slot
                    } else {
                        field(old(b)@, old(b).pos(), 3) as usize
                    },
                    if ids {
                        (field(old(b)@, old(b).pos() + width_if(!short, 3), delta_bits as nat)
                            + 1) as u64
                    } else {
                        0
                    },
                ),
                old(b).pos() + width_if(!short, 3) + width_if(ids, delta_bits as nat),
            ),
            r matches Ok(v) ==> v.0 < 8 && v.1 <= pow2(delta_bits as nat),
            r matches Ok(v) ==> ids ==> v.1 == field(
                old(b)@,
                old(b).pos() + width_if(!short, 3),
                delta_bits as nat,
            ) + 1,
    {
        proof {
            use_type_invariant(&*b);
            b.lemma_in_bounds();
            lemma2_to64();
            lemma_pow2_strictly_increases(delta_bits as nat, 18);
        }
        let slot = if short {
            slot
        } else {
            b.f(3)? as usize
        };
        let delta = if ids {
            b.f(delta_bits)? + 1
        } else {
            0
        };
        Ok((slot, delta))
    }

    /// The frame id that a reference is expected to have: the id of the
    /// frame less `delta`, modulo `2^id_len`.
    pub fn expected_frame_id(current_frame_id: u64, id_len: u64, delta: u64) -> (r: u64)
        requires
            id_len <= 25,
            delta <= pow2(id_len as nat),
        ensures
            r == expected_id(current_frame_id, id_len as nat, delta as int),
    {
        proof {
            lemma2_to64();
            lemma_pow2_strictly_increases(id_len as nat, 26);
            lemma_u64_shl_is_mul(1, id_len);
        }
        let modulus: u64 = 1u64 << id_len;
        ((current_frame_id as u128 + modulus as u128 - delta as u128) % (modulus as u128)) as u64
    }

    /// Runs the stage `ReferenceIndices`.
    fn reference_indices(&mut self, b: &mut BitStream, sh: &ObuSequenceHeader, state: &mut State) -> (r:
        Result<Next, Error>)
        requires
            sh.wf(),
            old(self).wf(),
        ensures
            stage_ran(
                old(b),
                final(b),
                *old(state),
                *final(state),
                *old(self),
                *final(self),
                r,
                reference_indices_step(old(b)@, old(b).pos(), *sh, *old(state), *old(self)),
            ),
            final(self).wf(),
    {
        let short = self.frame_refs_short_signaling;
        let ids = sh.frame_id_numbers_present_flag;
        let n = sh.delta_frame_id_length_minus_2 + 2;
        let slots = self.ref_frame_idx;
        let r0 = Self::read_reference(b, short, ids, n, slots[0])?;
        let r1 = Self::read_reference(b, short, ids, n, slots[1])?;
        let r2 = Self::read_reference(b, short, ids, n, slots[2])?;
        let r3 = Self::read_reference(b, short, ids, n, slots[3])?;
        let r4 = Self::read_reference(b, short, ids, n, slots[4])?;
        let r5 = Self::read_reference(b, short, ids, n, slots[5])?;
        let r6 = Self::read_reference(b, short, ids, n, slots[6])?;
        let expected_frame_id = if ids {
            let id_len = sh.id_len();
            let id = self.current_frame_id;
            proof {
                lemma_pow2_strictly_increases(n as nat, id_len as nat);
            }
            [
                Self::expected_frame_id(id, id_len, r0.1),
                Self::expected_frame_id(id, id_len, r1.1),
                Self::expected_frame_id(id, id_len, r2.1),
                Self::expected_frame_id(id, id_len, r3.1),
                Self::expected_frame_id(id, id_len, r4.1),
                Self::expected_frame_id(id, id_len, r5.1),
                Self::expected_frame_id(id, id_len, r6.1),
            ]
        } else {
            self.expected_frame_id
        };
        *state = State {
            delta_frame_id: if ids {
                r6.1
            } else {
                state.delta_frame_id
            },
            ..*state
        };
        *self = UncompressedHeader {
            ref_frame_idx: if short {
                slots
            } else {
                [r0.0, r1.0, r2.0, r3.0, r4.0, r5.0, r6.0]
            },
            expected_frame_id,
            ..*self
        };
        if self.frame_size_override_flag && !self.error_resilient_mode {
            Ok(Next::Needs(Feature::FrameSizeWithRefs, Stage::Motion))
        } else {
            Ok(Next::Needs(Feature::FrameSize, Stage::InterRenderSize))
        }
    }

    /// Runs the one stage `stage`.
    fn one_stage(
        &mut self,
        stage: Stage,
        b: &mut BitStream,
        sh: &ObuSequenceHeader,
        header: &ObuHeader,
        state: &mut State,
        old_frame_id: Option<u64>,
    ) -> (r: Result<Next, Error>)
        requires
            sh.wf(),
            header.wf(),
            old(state).wf(),
            old(self).wf(),
        ensures
            stage_ran(
                old(b),
                final(b),
                *old(state),
                *final(state),
                *old(self),
                *final(self),
                r,
                step(
                    stage,
                    old(b)@,
                    old(b).pos(),
                    *sh,
                    *header,
                    old_frame_id,
                    *old(state),
                    *old(self),
                ),
            ),
            final(self).wf(),
            final(state).wf(),
    {
        proof {
            use_type_invariant(&*b);
            b.lemma_in_bounds();
        }
        match stage {
            Stage::Start => self.start(b, sh, state),
            Stage::ExistingFrame => self.existing_frame(b, sh, state),
            Stage::Shown => self.shown(b, state),
            Stage::Setup => self.setup(b, sh, old_frame_id, state),
            Stage::References => self.references(b, sh, header, state),
            Stage::Refresh => self.refresh(b, sh, state),
            Stage::ShortSignaling => self.short_signaling(b, sh, state),
            Stage::IntraRenderSize => Ok(Next::Needs(Feature::RenderSize, Stage::IntraTail)),
            Stage::IntraTail => self.intra_tail(b, state),
            Stage::ReferenceIndices => self.reference_indices(b, sh, state),
            Stage::InterRenderSize => Ok(Next::Needs(Feature::RenderSize, Stage::Motion)),
            Stage::Motion => self.motion(b, sh, state),
            Stage::Tail => self.tail(b, sh, state),
            Stage::Complete => Ok(Next::Finished),
        }
    }

    /// Decodes from `stage` on, stage after stage, until the header is
    /// complete or a part of the grammar is needed that the caller has to
    /// decode. After that part the caller goes on with the stage that the
    /// result names. A stage that the buffer ends in leaves the state and
    /// the header as they were before it.
    pub fn advance(
        &mut self,
        stage: Stage,
        b: &mut BitStream,
        sh: &ObuSequenceHeader,
        header: &ObuHeader,
        state: &mut State,
        old_frame_id: Option<u64>,
    ) -> (r: Result<Progress, Error>)
        requires
            sh.wf(),
            header.wf(),
            old(state).wf(),
            old(self).wf(),
        ensures
            advanced(
                old(b),
                final(b),
                *final(state),
                *final(self),
                r,
                run(
                    stage,
                    old(b)@,
                    old(b).pos(),
                    *sh,
                    *header,
                    old_frame_id,
                    *old(state),
                    *old(self),
                ),
            ),
            final(self).wf(),
            final(state).wf(),
    {
        proof {
            use_type_invariant(&*b);
            b.lemma_in_bounds();
        }
        let ghost goal = run(
            stage,
            old(b)@,
            old(b).pos(),
            *sh,
            *header,
            old_frame_id,
            *old(state),
            *old(self),
        );
        let mut current = stage;
        loop
            invariant
                sh.wf(),
                header.wf(),
                state.wf(),
                self.wf(),
                b@ == old(b)@,
                b.same_leb128(old(b)),
                0 <= old(b).pos() <= b.pos() <= 8 * b@.len(),
                goal == run(
                    stage,
                    old(b)@,
                    old(b).pos(),
                    *sh,
                    *header,
                    old_frame_id,
                    *old(state),
                    *old(self),
                ),
                run(current, b@, b.pos(), *sh, *header, old_frame_id, *state, *self) == goal,
            decreases current.rank(),
        {
            proof {
                lemma_continue_descends(
                    current,
                    b@,
                    b.pos(),
                    *sh,
                    *header,
                    old_frame_id,
                    *state,
                    *self,
                );
            }
            match self.one_stage(current, b, sh, header, state, old_frame_id) {
                Err(e) => {
                    return Err(e);
                },
                Ok(Next::Continue(next)) => {
                    current = next;
                },
                Ok(Next::Needs(feature, next)) => {
                    return Ok(Progress::Needs(feature, next));
                },
                Ok(Next::Finished) => {
                    return Ok(Progress::Finished);
                },
            }
        }
    }

    /// A header of which nothing is decoded yet.
    pub fn empty_header() -> (uh: UncompressedHeader)
        ensures
            uh == UncompressedHeader::empty(),
            uh.wf(),
    {
        UncompressedHeader {
            show_existing_frame: false,
            frame_type: 0,
            show_frame: false,
            showable_frame: false,
            frame_to_show_map_idx: 0,
            refresh_frame_flags: 0,
            display_frame_id: 0,
            error_resilient_mode: false,
            disable_cdf_update: false,
            allow_screen_content_tools: false,
            force_integer_mv: false,
            current_frame_id: 0,
            frame_size_override_flag: false,
            primary_ref_frame: 0,
            buffer_removal_time: [None;32],
            allow_high_precision_mv: false,
            use_ref_frame_mvs: false,
            allow_intrabc: false,
            ref_order_hint: [0, 0, 0, 0, 0, 0, 0, 0],
            frame_refs_short_signaling: false,
            last_frame_idx: 0,
            gold_frame_idx: 0,
            ref_frame_idx: [0, 0, 0, 0, 0, 0, 0],
            expected_frame_id: [0, 0, 0, 0, 0, 0, 0],
            is_motion_mode_switchable: false,
            disable_frame_end_update_cdf: false,
        }
    }

    /// Decodes a frame header from its start, as far as this library can:
    /// the first part of the grammar that lies outside it ends the decoding
    /// with `UnimplementedFeature`, the cursor at the start of that part and
    /// the state as the stages before it left it.
    pub fn new(
        b: &mut BitStream,
        sh: &ObuSequenceHeader,
        header: &ObuHeader,
        state: &mut State,
        old_frame_id: Option<u64>,
    ) -> (r: Result<UncompressedHeader, Error>)
        requires
            sh.wf(),
            header.wf(),
            old(state).wf(),
        ensures
            final(b)@ == old(b)@,
            final(b).same_leb128(old(b)),
            0 <= old(b).pos() <= final(b).pos() <= 8 * old(b)@.len(),
            final(state).wf(),
            ({
                let outcome = run(
                    Stage::Start,
                    old(b)@,
                    old(b).pos(),
                    *sh,
                    *header,
                    old_frame_id,
                    *old(state),
                    UncompressedHeader::empty(),
                );
                &&& r == unaided(outcome)
                &&& *final(state) == outcome.state
                &&& outcome.result is Ok ==> final(b).pos() == outcome.pos
            }),
            r is Ok ==> r->Ok_0.wf(),
    {
        let mut uh = UncompressedHeader::empty_header();
        match uh.advance(Stage::Start, b, sh, header, state, old_frame_id) {
            Ok(Progress::Finished) => Ok(uh),
            Ok(Progress::Needs(feature, _)) => Err(Error::UnimplementedFeature(feature)),
            Err(e) => Err(e),
        }
    }
}

impl Default for UncompressedHeader {
    fn default() -> (uh: UncompressedHeader)
        ensures
            uh == UncompressedHeader::empty(),
    {
        UncompressedHeader::empty_header()
    }
}

/// A frame header OBU.
#[derive(Debug, Clone, Copy, PartialEq, Eq)]
pub struct ObuFrameHeader {
    pub uncompressed_header: UncompressedHeader,
}

/// What the decoding of a frame header OBU leaves behind: the state, the
/// result, and the cursor where decoding did not run out of buffer.
pub struct FrameHeaderOutcome {
    pub pos: int,
    pub state: State,
    pub result: Result<ObuFrameHeader, Error>,
}

/// The decoding of a frame header OBU. While the header of a frame has been
/// seen and the frame is not wrapped up, a frame header repeats that header,
/// which this library does not copy. Else the header is marked as seen and
/// decoded. A header that shows an existing frame asks for the frame to be
/// wrapped up at once, which lies outside this library; any other header
/// starts the tiles of its frame at 0.
pub open spec fn frame_header_outcome(
    bytes: Seq<u8>,
    pos: int,
    sh: ObuSequenceHeader,
    header: ObuHeader,
    old_frame_id: Option<u64>,
    st: State,
) -> FrameHeaderOutcome {
    if st.seen_frame_header {
        FrameHeaderOutcome {
            pos,
            state: st,
            result: Err(Error::UnimplementedFeature(Feature::FrameHeaderCopy)),
        }
    } else {
        let outcome = run(
            Stage::Start,
            bytes,
            pos,
            sh,
            header,
            old_frame_id,
            State { seen_frame_header: true, ..st },
            UncompressedHeader::empty(),
        );
        match unaided(outcome) {
            Err(e) => FrameHeaderOutcome { pos: outcome.pos, state: outcome.state, result: Err(e) },
            Ok(uh) => if uh.show_existing_frame {
                FrameHeaderOutcome {
                    pos: outcome.pos,
                    state: outcome.state,
                    result: Err(Error::UnimplementedFeature(Feature::DecodeFrameWrapup)),
                }
            } else {
                FrameHeaderOutcome {
                    pos: outcome.pos,
                    state: State { tile_num: 0, ..outcome.state },
                    result: Ok(ObuFrameHeader { uncompressed_header: uh }),
                }
            },
        }
    }
}

impl ObuFrameHeader {
    /// Decodes a frame header OBU as far as this library can. The state is
    /// left as the decoding that took place left it, also where the result
    /// is an error.
    pub fn new(
        b: &mut BitStream,
        state: &mut State,
        sh: &ObuSequenceHeader,
        h: &ObuHeader,
        old_frame_id: Option<u64>,
    ) -> (r: Result<ObuFrameHeader, Error>)
        requires
            sh.wf(),
            h.wf(),
            old(state).wf(),
        ensures
            final(b)@ == old(b)@,
            final(b).same_leb128(old(b)),
            0 <= old(b).pos() <= final(b).pos() <= 8 * old(b)@.len(),
            final(state).wf(),
            ({
                let outcome = frame_header_outcome(
                    old(b)@,
                    old(b).pos(),
                    *sh,
                    *h,
                    old_frame_id,
                    *old(state),
                );
                &&& r == outcome.result
                &&& *final(state) == outcome.state
                &&& r != Err::<ObuFrameHeader, Error>(Error::EndOfStream) ==> final(b).pos()
                    == outcome.pos
            }),
    {
        proof {
            use_type_invariant(&*b);
            b.lemma_in_bounds();
        }
        if state.seen_frame_header {
            return Err(Error::UnimplementedFeature(Feature::FrameHeaderCopy));
        }
        *state = State { seen_frame_header: true, ..*state };
        proof {
            lemma_run_fails_at_end_only(
                Stage::Start,
                b@,
                b.pos(),
                *sh,
                *h,
                old_frame_id,
                *state,
                UncompressedHeader::empty(),
            );
        }
        let uh = UncompressedHeader::new(b, sh, h, state, old_frame_id)?;
        if uh.show_existing_frame {
            return Err(Error::UnimplementedFeature(Feature::DecodeFrameWrapup));
        }
        *state = State { tile_num: 0, ..*state };
        Ok(ObuFrameHeader { uncompressed_header: uh })
    }
}

} // verus!
