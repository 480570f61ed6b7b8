//! Decoder buffer parameters of one operating point.

use crate::bits::bitstream::{field, flag, BitStream};
use crate::error::Error;
use vstd::prelude::*;

verus! {

/// The decoder model parameters of one operating point.
#[derive(Debug, Clone, Copy, PartialEq, Eq, Structural)]
pub struct OperatingParamtersInfo {
    /// The operating point that the parameters belong to.
    pub op: usize,
    pub decoder_buffer_delay: u64,
    pub encoder_buffer_delay: u64,
    pub low_delay_mode_flag: bool,
}

impl OperatingParamtersInfo {
    /// The parameters of operating point `op` written from bit `pos` on: two
    /// delays of `n` bits each and a flag.
    pub open spec fn parse(bytes: Seq<u8>, pos: int, op: usize, n: nat) -> OperatingParamtersInfo {
        OperatingParamtersInfo {
            op,
            decoder_buffer_delay: field(bytes, pos, n),
            encoder_buffer_delay: field(bytes, pos + n, n),
            low_delay_mode_flag: flag(bytes, pos + 2 * n),
        }
    }

    /// Decodes the parameters of operating point `op`, whose delays are
    /// `buffer_delay_length_minus_1 + 1` bits wide.
    pub fn new(b: &mut BitStream, op: usize, buffer_delay_length_minus_1: u64) -> (r: Result<
        OperatingParamtersInfo,
        Error,
    >)
        requires
            buffer_delay_length_minus_1 < 64,
        ensures
            final(b).decoded(
                old(b),
                r,
                Self::parse(old(b)@, old(b).pos(), op, (buffer_delay_length_minus_1 + 1) as nat),
                old(b).pos() + 2 * (buffer_delay_length_minus_1 + 1) + 1,
            ),
    {
        let n = buffer_delay_length_minus_1 + 1;

        let decoder_buffer_delay = b.f(n)?;
        let encoder_buffer_delay = b.f(n)?;
        let low_delay_mode_flag = b.flag()?;

        Ok(OperatingParamtersInfo { op, decoder_buffer_delay, encoder_buffer_delay, low_delay_mode_flag })
    }
}

} // verus!
