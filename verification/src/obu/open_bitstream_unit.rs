//! One open bitstream unit: its header, its size, and what it carries.

use crate::bits::bitstream::{
    leb128_len, leb128_terminated, leb128_value, lemma_leb128_len_from, BitStream, Leb128Record,
};
use crate::error::{Error, Feature};
use crate::obu::obu_frame_header::{frame_header_outcome, ObuFrameHeader};
use crate::obu::obu_header::{ObuHeader, ObuType};
use crate::obu::obu_sequence_header::{sequence_header_outcome, ObuSequenceHeader};
use crate::state::State;
use vstd::prelude::*;

verus! {

/// What an OBU carries, decoded.
#[derive(Debug, Clone, Copy, PartialEq, Eq)]
pub enum ObuPayload {
    SequenceHeader(ObuSequenceHeader),
    FrameHeader(ObuFrameHeader),
}

/// A decoded OBU.
#[derive(Debug, Clone, Copy, PartialEq, Eq)]
pub struct OpenBitstreamUnit {
    pub header: ObuHeader,
    /// The number of bytes of the payload.
    pub obu_size: u64,
    pub payload: ObuPayload,
}

/// The header of an OBU and the size of its payload.
pub struct Framed {
    /// Where the payload starts.
    pub pos: int,
    /// What the stream then remembers of the LEB128 value it read last.
    pub record: Leb128Record,
    pub result: Result<(ObuHeader, u64), Error>,
}

/// The header of the OBU at bit `pos` and the size of its payload, where
/// `sz` bytes are left for the OBU. The size is the LEB128 value after the
/// header, if the header says that there is one, and else what of the `sz`
/// bytes the header leaves. Header, size field and payload take the `sz`
/// bytes exactly, or the sizes do not match; and the buffer holds all of
/// the payload, or the stream ends early.
pub open spec fn framed(bytes: Seq<u8>, pos: int, sz: u64, record: Leb128Record) -> Framed {
    let header = ObuHeader::parse(bytes, pos);
    let after = pos + 8 * header.spec_len();
    let len = leb128_len(bytes, after);
    let sized = Leb128Record { bytes: len, terminated: leb128_terminated(bytes, after) };
    if after > 8 * bytes.len() {
        Framed { pos, record, result: Err(Error::EndOfStream) }
    } else if header.obu_has_size_field {
        let start = after + 8 * len;
        let obu_size = leb128_value(bytes, after);
        if start > 8 * bytes.len() {
            Framed { pos, record, result: Err(Error::EndOfStream) }
        } else if !sized.terminated {
            Framed { pos: start, record: sized, result: Err(Error::MalformedLength) }
        } else if header.spec_len() + len + obu_size != sz {
            Framed { pos: start, record: sized, result: Err(Error::SizeMismatch) }
        } else if start + 8 * obu_size > 8 * bytes.len() {
            Framed { pos: start, record: sized, result: Err(Error::EndOfStream) }
        } else {
            Framed { pos: start, record: sized, result: Ok((header, obu_size as u64)) }
        }
    } else if sz < header.spec_len() {
        Framed { pos: after, record, result: Err(Error::SizeMismatch) }
    } else if after + 8 * (sz - header.spec_len()) > 8 * bytes.len() {
        Framed { pos: after, record, result: Err(Error::EndOfStream) }
    } else {
        Framed { pos: after, record, result: Ok((header, (sz - header.spec_len()) as u64)) }
    }
}

/// Whether a session with operating point mask `idc` drops the OBU with
/// header `header`: it has a mask, the OBU is of a type that may be
/// dropped and says which layers it belongs to, and the mask lacks the
/// temporal or the spatial one.
pub open spec fn dropped(header: ObuHeader, idc: u64) -> bool {
    &&& header.obu_type.is_filterable()
    &&& idc != 0
    &&& header.obu_extension_flag
    &&& !header.spec_in_operating_point(idc)
}

/// What the decoding of a payload leaves behind.
pub struct PayloadOutcome {
    /// The cursor, where decoding did not run out of buffer.
    pub pos: int,
    pub state: State,
    pub result: Result<ObuPayload, Error>,
}

/// The decoding of the payload at bit `pos` of an OBU with header
/// `header`: a sequence header, a frame header against the sequence header
/// `active` that the session holds, or nothing that this library decodes.
pub open spec fn payload_outcome(
    bytes: Seq<u8>,
    pos: int,
    header: ObuHeader,
    st: State,
    active: Option<ObuSequenceHeader>,
    old_frame_id: Option<u64>,
) -> PayloadOutcome {
    match header.obu_type {
        ObuType::ObuSequenceHeader => {
            let outcome = sequence_header_outcome(bytes, pos, st);
            PayloadOutcome {
                pos: outcome.pos,
                state: outcome.state,
                result: match outcome.result {
                    Ok(sh) => Ok(ObuPayload::SequenceHeader(sh)),
                    Err(e) => Err(e),
                },
            }
        },
        ObuType::ObuFrameHeader | ObuType::ObuFrame => match active {
            None => PayloadOutcome { pos, state: st, result: Err(Error::MissingSequenceHeader) },
            Some(sh) => {
                let outcome = frame_header_outcome(bytes, pos, sh, header, old_frame_id, st);
                PayloadOutcome {
                    pos: outcome.pos,
                    state: outcome.state,
                    result: match outcome.result {
                        Ok(fh) => Ok(ObuPayload::FrameHeader(fh)),
                        Err(e) => Err(e),
                    },
                }
            },
        },
        other => PayloadOutcome {
            pos,
            state: st,
            result: Err(Error::UnimplementedFeature(Feature::Payload(other))),
        },
    }
}

/// What the handling of one OBU leaves behind.
pub struct UnitOutcome {
    /// The cursor, where decoding did not run out of buffer.
    pub pos: int,
    pub record: Leb128Record,
    pub state: State,
    pub result: Result<Option<OpenBitstreamUnit>, Error>,
}

/// The handling of the OBU at bit `pos` for which `sz` bytes are left. An
/// OBU that the session drops is skipped and gives no unit. Of any other
/// the payload is decoded; it may not reach past the size of the OBU, and
/// the cursor then moves to the end of the OBU.
pub open spec fn unit_outcome(
    bytes: Seq<u8>,
    pos: int,
    sz: u64,
    record: Leb128Record,
    st: State,
    active: Option<ObuSequenceHeader>,
    old_frame_id: Option<u64>,
) -> UnitOutcome {
    let head = framed(bytes, pos, sz, record);
    match head.result {
        Err(e) => UnitOutcome { pos: head.pos, record: head.record, state: st, result: Err(e) },
        Ok((header, obu_size)) => {
            let end = head.pos + 8 * obu_size;
            if dropped(header, st.operating_point_idc) {
                UnitOutcome { pos: end, record: head.record, state: st, result: Ok(None) }
            } else {
                let payload = payload_outcome(bytes, head.pos, header, st, active, old_frame_id);
                match payload.result {
                    Err(e) => UnitOutcome {
                        pos: payload.pos,
                        record: head.record,
                        state: payload.state,
                        result: Err(e),
                    },
                    Ok(decoded) => if payload.pos > end {
                        UnitOutcome {
                            pos: payload.pos,
                            record: head.record,
                            state: payload.state,
                            result: Err(Error::SizeMismatch),
                        }
                    } else {
                        UnitOutcome {
                            pos: end,
                            record: head.record,
                            state: payload.state,
                            result: Ok(
                                Some(OpenBitstreamUnit { header, obu_size, payload: decoded }),
                            ),
                        }
                    },
                }
            }
        },
    }
}

/// An OBU that is handled without error, dropped or not, takes the `sz`
/// bytes that were left for it exactly.
pub proof fn lemma_unit_exact(
    bytes: Seq<u8>,
    pos: int,
    sz: u64,
    record: Leb128Record,
    st: State,
    active: Option<ObuSequenceHeader>,
    old_frame_id: Option<u64>,
)
    ensures
        unit_outcome(bytes, pos, sz, record, st, active, old_frame_id).result is Ok ==> unit_outcome(
            bytes,
            pos,
            sz,
            record,
            st,
            active,
            old_frame_id,
        ).pos == pos + 8 * sz,
{
    lemma_leb128_len_from(
        bytes,
        pos + 8 * ObuHeader::parse(bytes, pos).spec_len(),
        0,
    );
}

/// A session with an operating point mask skips an OBU whose header names
/// a temporal or a spatial layer that the mask lacks, if the OBU is of a
/// type that may be dropped: no unit comes of it, the state stays, and the
/// cursor stands at the end of the OBU, where the next one starts.
pub proof fn lemma_filtered_unit_is_skipped(
    bytes: Seq<u8>,
    pos: int,
    sz: u64,
    record: Leb128Record,
    st: State,
    active: Option<ObuSequenceHeader>,
    old_frame_id: Option<u64>,
)
    requires
        framed(bytes, pos, sz, record).result matches Ok((header, obu_size))
            && header.obu_type.is_filterable() && header.obu_extension_flag && st.operating_point_idc
            != 0 && ((st.operating_point_idc >> header.temporal_id()) & 1 == 0 || (
        st.operating_point_idc >> (header.spatial_id() + 8)) & 1 == 0),
    ensures
        ({
            let outcome = unit_outcome(bytes, pos, sz, record, st, active, old_frame_id);
            let head = framed(bytes, pos, sz, record);
            &&& outcome.result == Ok::<Option<OpenBitstreamUnit>, Error>(None)
            &&& outcome.state == st
            &&& outcome.pos == head.pos + 8 * head.result->Ok_0.1
            &&& outcome.pos == pos + 8 * sz
        }),
{
    lemma_leb128_len_from(
        bytes,
        pos + 8 * ObuHeader::parse(bytes, pos).spec_len(),
        0,
    );
}

impl OpenBitstreamUnit {
    /// Reads the header of an OBU and settles the size of its payload.
    fn read_framed(b: &mut BitStream, sz: u64) -> (r: Result<(ObuHeader, u64), Error>)
        ensures
            final(b)@ == old(b)@,
            0 <= old(b).pos() <= final(b).pos() <= 8 * old(b)@.len(),
            r == framed(old(b)@, old(b).pos(), sz, old(b).record()).result,
            final(b).record() == framed(old(b)@, old(b).pos(), sz, old(b).record()).record,
            r != Err::<(ObuHeader, u64), Error>(Error::EndOfStream) ==> final(b).pos() == framed(
                old(b)@,
                old(b).pos(),
                sz,
                old(b).record(),
            ).pos,
            r matches Ok(v) ==> v.0.wf() && final(b).pos() + 8 * v.1 <= 8 * old(b)@.len(),
    {
        let header = ObuHeader::new(b)?;
        let obu_size = if header.obu_has_size_field {
            let size = b.leb128()?;
            if !b.leb_128_terminated() {
                return Err(Error::MalformedLength);
            }
            let head: u64 = if header.obu_extension_flag {
                2
            } else {
                1
            };
            if head + b.leb_128_bytes() + size != sz {
                return Err(Error::SizeMismatch);
            }
            size
        } else {
            let head: u64 = if header.obu_extension_flag {
                2
            } else {
                1
            };
            if sz < head {
                return Err(Error::SizeMismatch);
            }
            sz - head
        };
        let position = b.position();
        if obu_size > (b.bit_len() - position as u64) / 8 {
            return Err(Error::EndOfStream);
        }
        Ok((header, obu_size))
    }

    /// Whether a session with operating point mask `idc` drops the OBU with
    /// header `header`.
    pub fn is_dropped(header: &ObuHeader, idc: u64) -> (r: bool)
        requires
            header.wf(),
        ensures
            r == dropped(*header, idc),
    {
        header.obu_type.filterable() && idc != 0 && header.obu_extension_flag
            && !header.in_operating_point(idc)
    }

    /// Skips a payload of `obu_size` bytes.
    pub fn drop_obu(bitstream: &mut BitStream, obu_size: u64) -> (r: Result<(), Error>)
        ensures
            final(bitstream).decoded(old(bitstream), r, (), old(bitstream).pos() + 8 * obu_size),
            r is Err ==> final(bitstream).pos() == old(bitstream).pos(),
    {
        if obu_size > bitstream.bit_len() / 8 {
            proof {
                use_type_invariant(&*bitstream);
                bitstream.lemma_in_bounds();
            }
            return Err(Error::EndOfStream);
        }
        bitstream.skip(obu_size * 8)
    }

    /// Decodes the payload of an OBU with header `header`.
    fn decode_payload(
        b: &mut BitStream,
        header: &ObuHeader,
        state: &mut State,
        sequence_header: &Option<ObuSequenceHeader>,
        old_frame_id: Option<u64>,
    ) -> (r: Result<ObuPayload, Error>)
        requires
            header.wf(),
            old(state).wf(),
            sequence_header matches Some(sh) ==> sh.wf(),
        ensures
            final(b)@ == old(b)@,
            final(b).same_leb128(old(b)),
            0 <= old(b).pos() <= final(b).pos() <= 8 * old(b)@.len(),
            final(state).wf(),
            ({
                let outcome = payload_outcome(
                    old(b)@,
                    old(b).pos(),
                    *header,
                    *old(state),
                    *sequence_header,
                    old_frame_id,
                );
                &&& r == outcome.result
                &&& *final(state) == outcome.state
                &&& r != Err::<ObuPayload, Error>(Error::EndOfStream) ==> final(b).pos()
                    == outcome.pos
            }),
            r matches Ok(ObuPayload::SequenceHeader(sh)) ==> sh.wf(),
    {
        proof {
            use_type_invariant(&*b);
            b.lemma_in_bounds();
        }
        match header.obu_type {
            ObuType::ObuSequenceHeader => {
                let sh = ObuSequenceHeader::new(b, state)?;
                Ok(ObuPayload::SequenceHeader(sh))
            },
            ObuType::ObuFrameHeader | ObuType::ObuFrame => match sequence_header {
                None => Err(Error::MissingSequenceHeader),
                Some(sh) => {
                    let fh = ObuFrameHeader::new(b, state, sh, header, old_frame_id)?;
                    Ok(ObuPayload::FrameHeader(fh))
                },
            },
            other => Err(Error::UnimplementedFeature(Feature::Payload(other))),
        }
    }

    /// Handles the OBU at the cursor, for which `sz` bytes are left, in a
    /// session with state `state` that holds the sequence header
    /// `sequence_header` and last saw a frame with id `old_frame_id`. Gives
    /// the decoded unit, or `None` for an OBU that the session drops; in
    /// both cases the cursor is at the end of the OBU.
    pub fn new(
        bitstream: &mut BitStream,
        sz: u64,
        state: &mut State,
        sequence_header: &Option<ObuSequenceHeader>,
        old_frame_id: Option<u64>,
    ) -> (r: Result<Option<OpenBitstreamUnit>, Error>)
        requires
            old(state).wf(),
            sequence_header matches Some(sh) ==> sh.wf(),
        ensures
            final(bitstream)@ == old(bitstream)@,
            0 <= old(bitstream).pos() <= final(bitstream).pos() <= 8 * old(bitstream)@.len(),
            final(state).wf(),
            ({
                let outcome = unit_outcome(
                    old(bitstream)@,
                    old(bitstream).pos(),
                    sz,
                    old(bitstream).record(),
                    *old(state),
                    *sequence_header,
                    old_frame_id,
                );
                &&& r == outcome.result
                &&& *final(state) == outcome.state
                &&& final(bitstream).record() == outcome.record
                &&& r != Err::<Option<OpenBitstreamUnit>, Error>(Error::EndOfStream)
                    ==> final(bitstream).pos() == outcome.pos
            }),
            r matches Ok(Some(unit)) ==> (unit.payload matches ObuPayload::SequenceHeader(sh)
                ==> sh.wf()),
    {
        let (header, obu_size) = Self::read_framed(bitstream, sz)?;
        if Self::is_dropped(&header, state.operating_point_idc) {
            Self::drop_obu(bitstream, obu_size)?;
            return Ok(None);
        }
        let start = bitstream.position();
        let payload_bits = obu_size * 8;
        let payload = Self::decode_payload(bitstream, &header, state, sequence_header, old_frame_id)?;
        let consumed = (bitstream.position() - start) as u64;
        if consumed > payload_bits {
            return Err(Error::SizeMismatch);
        }
        bitstream.skip(payload_bits - consumed)?;
        Ok(Some(OpenBitstreamUnit { header, obu_size, payload }))
    }
}

} // verus!
