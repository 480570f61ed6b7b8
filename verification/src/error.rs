//! The ways in which decoding can fail.

use crate::obu::obu_header::ObuType;
use vstd::prelude::*;

verus! {

/// A part of the bitstream grammar whose decoding lies outside this library.
#[derive(Debug, Clone, Copy, PartialEq, Eq, Structural)]
pub enum Feature {
    /// The payload of an OBU of the given type.
    Payload(ObuType),
    /// `frame_header_copy`: a frame header that repeats the one seen before.
    FrameHeaderCopy,
    /// `temporal_point_info`: the presentation time of a frame.
    TemporalPointInfo,
    /// `load_grain_params`: film grain parameters of a frame shown again.
    LoadGrainParams,
    /// `mark_ref_frames`: invalidating references by frame id.
    MarkRefFrames,
    /// `frame_size`: the dimensions of the frame.
    FrameSize,
    /// `render_size`: the dimensions at which the frame is rendered.
    RenderSize,
    /// `set_frame_refs`: deriving the reference list from two signalled entries.
    SetFrameRefs,
    /// `frame_size_with_refs`: frame dimensions taken from a reference.
    FrameSizeWithRefs,
    /// `init_non_coeff_cdfs` and `setup_past_independence`: fresh entropy contexts.
    InitNonCoeffCdfs,
    /// `load_cdfs` and `load_previous`: entropy contexts of the primary reference.
    LoadCdfs,
    /// `decode_frame_wrapup`: finishing a frame.
    DecodeFrameWrapup,
}

/// Why a decoding step could not produce its result.
#[derive(Debug, Clone, Copy, PartialEq, Eq, Structural)]
pub enum Error {
    /// A read would have moved the cursor past the end of the buffer.
    EndOfStream,
    /// The bytes taken by a nested unit differ from the length declared for it.
    SizeMismatch,
    /// An OBU type code that does not fit in four bits.
    InvalidObuType,
    /// The grammar reached a part whose decoder lies outside this library.
    UnimplementedFeature(Feature),
    /// The operating point asked for is not among those the sequence header configures.
    InvalidOperatingPoint,
    /// A length prefix whose eighth byte still asks for a continuation.
    MalformedLength,
    /// A frame header arrived before any sequence header.
    MissingSequenceHeader,
}

} // verus!
