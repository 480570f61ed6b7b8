//! What a decoding session remembers from one OBU to the next.

use vstd::prelude::*;

verus! {

/// The state of one decoding session. It is made when the session starts
/// and changed by the sequence header and frame header decoders.
#[derive(Debug, Clone, Copy, PartialEq, Eq)]
pub struct State {
    /// The operating point that the session asks the sequence header for.
    pub operating_point: usize,
    pub operating_point_idc: u64,
    pub order_hint: u64,
    pub order_hint_bits: u64,
    pub bit_depth: u64,
    pub num_planes: u64,
    /// Set from the decoding of a frame header until the frame is wrapped up.
    pub seen_frame_header: bool,
    pub tile_num: u64,
    pub frame_is_intra: bool,
    pub ref_frame_type: [u64; 8],
    pub ref_valid: [bool; 8],
    pub ref_order_hint: [u64; 8],
    /// Order hints by reference frame type.
    pub order_hints: [u64; 8],
    pub prev_frame_id: u64,
    pub upscaled_width: u64,
    pub frame_width: u64,
    pub delta_frame_id: u64,
    pub ref_frame_sign_bias: [u64; 8],
}

impl State {
    /// The state at the start of a session: everything zero, no reference
    /// valid, operating point 0 asked for.
    pub open spec fn initial() -> State {
        State {
            operating_point: 0,
            operating_point_idc: 0,
            order_hint: 0,
            order_hint_bits: 0,
            bit_depth: 0,
            num_planes: 0,
            seen_frame_header: false,
            tile_num: 0,
            frame_is_intra: false,
            ref_frame_type: [0u64, 0u64, 0u64, 0u64, 0u64, 0u64, 0u64, 0u64],
            ref_valid: [false, false, false, false, false, false, false, false],
            ref_order_hint: [0u64, 0u64, 0u64, 0u64, 0u64, 0u64, 0u64, 0u64],
            order_hints: [0u64, 0u64, 0u64, 0u64, 0u64, 0u64, 0u64, 0u64],
            prev_frame_id: 0,
            upscaled_width: 0,
            frame_width: 0,
            delta_frame_id: 0,
            ref_frame_sign_bias: [0u64, 0u64, 0u64, 0u64, 0u64, 0u64, 0u64, 0u64],
        }
    }

    /// An order hint is at most eight bits wide.
    pub open spec fn wf(self) -> bool {
        self.order_hint_bits <= 8
    }

    /// The state at the start of a session.
    pub fn new() -> (s: State)
        ensures
            s == State::initial(),
            s.wf(),
    {
        State {
            operating_point: 0,
            operating_point_idc: 0,
            order_hint: 0,
            order_hint_bits: 0,
            bit_depth: 0,
            num_planes: 0,
            seen_frame_header: false,
            tile_num: 0,
            frame_is_intra: false,
            ref_frame_type: [0, 0, 0, 0, 0, 0, 0, 0],
            ref_valid: [false, false, false, false, false, false, false, false],
            ref_order_hint: [0, 0, 0, 0, 0, 0, 0, 0],
            order_hints: [0, 0, 0, 0, 0, 0, 0, 0],
            prev_frame_id: 0,
            upscaled_width: 0,
            frame_width: 0,
            delta_frame_id: 0,
            ref_frame_sign_bias: [0, 0, 0, 0, 0, 0, 0, 0],
        }
    }

    /// Records that the frame whose header was seen has been wrapped up:
    /// the next frame header starts a new frame.
    pub fn frame_wrapped_up(&mut self)
        ensures
            *final(self) == (State { seen_frame_header: false, ..*old(self) }),
    {
        self.seen_frame_header = false;
    }
}

impl Default for State {
    fn default() -> (s: State)
        ensures
            s == State::initial(),
    {
        State::new()
    }
}

} // verus!
