//! Timing information of a sequence.

use crate::bits::bitstream::{field, flag, uvlc_end, uvlc_value, BitStream};
use crate::error::Error;
use vstd::prelude::*;

verus! {

/// The clock of a sequence.
#[derive(Debug, Clone, Copy, PartialEq, Eq, Structural)]
pub struct TimingInfo {
    pub num_units_in_display_tick: u64,
    pub time_scale: u64,
    pub equal_picture_interval: bool,
    pub num_ticks_per_picture_minus_1: u64,
}

impl TimingInfo {
    /// The timing information written from bit `pos` on: two numbers of 32
    /// bits, a flag, and where the flag is set, the number of ticks of a
    /// picture in the universal variable length code.
    pub open spec fn parse(bytes: Seq<u8>, pos: int) -> TimingInfo {
        let equal_picture_interval = flag(bytes, pos + 64);
        TimingInfo {
            num_units_in_display_tick: field(bytes, pos, 32),
            time_scale: field(bytes, pos + 32, 32),
            equal_picture_interval,
            num_ticks_per_picture_minus_1: if equal_picture_interval {
                uvlc_value(bytes, pos + 65)
            } else {
                0
            },
        }
    }

    /// Where the timing information that starts at bit `pos` ends.
    pub open spec fn end(bytes: Seq<u8>, pos: int) -> int {
        if flag(bytes, pos + 64) {
            uvlc_end(bytes, pos + 65)
        } else {
            pos + 65
        }
    }

    /// Decodes the timing information at the cursor.
    pub fn new(bitstream: &mut BitStream) -> (r: Result<TimingInfo, Error>)
        ensures
            final(bitstream).decoded(
                old(bitstream),
                r,
                Self::parse(old(bitstream)@, old(bitstream).pos()),
                Self::end(old(bitstream)@, old(bitstream).pos()),
            ),
    {
        let num_units_in_display_tick = bitstream.f(32)?;
        let time_scale = bitstream.f(32)?;
        let equal_picture_interval = bitstream.flag()?;

        let num_ticks_per_picture_minus_1 = match equal_picture_interval {
            true => bitstream.uvlc()?,
            false => 0,
        };

        Ok(
            TimingInfo {
                num_units_in_display_tick,
                time_scale,
                equal_picture_interval,
                num_ticks_per_picture_minus_1,
            },
        )
    }
}

} // verus!
