//! Decoder model information of a sequence.

use crate::bits::bitstream::{field, BitStream};
use crate::error::Error;
use vstd::arithmetic::power2::lemma2_to64;
use vstd::prelude::*;

verus! {

/// The widths and the clock of the decoder model of a sequence.
#[derive(Debug, Clone, Copy, PartialEq, Eq, Structural)]
pub struct DecoderModelInfo {
    pub buffer_delay_length_minus_1: u64,
    pub num_units_in_decoding_tick: u64,
    pub buffer_removal_time_length_minus_1: u64,
    pub frame_presentation_time_length_minus_1: u64,
}

impl DecoderModelInfo {
    /// The three lengths are within the five bits of their fields.
    pub open spec fn wf(self) -> bool {
        &&& self.buffer_delay_length_minus_1 < 32
        &&& self.buffer_removal_time_length_minus_1 < 32
        &&& self.frame_presentation_time_length_minus_1 < 32
    }

    /// The decoder model information written in the 47 bits from `pos`.
    pub open spec fn parse(bytes: Seq<u8>, pos: int) -> DecoderModelInfo {
        DecoderModelInfo {
            buffer_delay_length_minus_1: field(bytes, pos, 5),
            num_units_in_decoding_tick: field(bytes, pos + 5, 32),
            buffer_removal_time_length_minus_1: field(bytes, pos + 37, 5),
            frame_presentation_time_length_minus_1: field(bytes, pos + 42, 5),
        }
    }

    /// Decodes the decoder model information at the cursor.
    pub fn new(b: &mut BitStream) -> (r: Result<DecoderModelInfo, Error>)
        ensures
            final(b).decoded(old(b), r, Self::parse(old(b)@, old(b).pos()), old(b).pos() + 47),
            r matches Ok(info) ==> info.wf(),
    {
        let buffer_delay_length_minus_1 = b.f(5)?;
        let num_units_in_decoding_tick = b.f(32)?;
        let buffer_removal_time_length_minus_1 = b.f(5)?;
        let frame_presentation_time_length_minus_1 = b.f(5)?;
        proof {
            lemma2_to64();
        }

        Ok(
            DecoderModelInfo {
                buffer_delay_length_minus_1,
                num_units_in_decoding_tick,
                buffer_removal_time_length_minus_1,
                frame_presentation_time_length_minus_1,
            },
        )
    }
}

} // verus!
