//! The framing of a bitstream: temporal units, which hold frame units,
//! which hold OBUs, each behind a LEB128 value that gives its size in
//! bytes.

use crate::bits::bitstream::{
    leb128_len, leb128_terminated, leb128_value, lemma_leb128_len_from, BitStream, Leb128Record,
};
use crate::error::Error;
use crate::obu::obu_sequence_header::ObuSequenceHeader;
use crate::obu::open_bitstream_unit::{
    lemma_unit_exact, unit_outcome, ObuPayload, OpenBitstreamUnit,
};
use crate::state::State;
use vstd::prelude::*;

verus! {

/// A decoding session: its state, the sequence header in force, and the id
/// of the frame whose header was decoded last.
#[derive(Debug, Clone, Copy, PartialEq, Eq)]
pub struct Parser {
    pub state: State,
    pub sequence_header: Option<ObuSequenceHeader>,
    pub frame_id: Option<u64>,
}

/// A length prefix as it is read.
pub struct Prefix {
    /// The cursor, where reading did not run out of buffer.
    pub pos: int,
    /// What the stream then remembers of the LEB128 value it read last.
    pub record: Leb128Record,
    pub result: Result<u64, Error>,
}

/// The length prefix at bit `pos` of a unit inside a unit of which `budget`
/// bytes are left: a LEB128 value that ends within eight bytes and that,
/// with its own bytes, stays within the budget.
pub open spec fn length_prefix(bytes: Seq<u8>, pos: int, budget: u64, record: Leb128Record) -> Prefix {
    let len = leb128_len(bytes, pos);
    let read = Leb128Record { bytes: len, terminated: leb128_terminated(bytes, pos) };
    let after = pos + 8 * len;
    if after > 8 * bytes.len() {
        Prefix { pos, record, result: Err(Error::EndOfStream) }
    } else if !read.terminated {
        Prefix { pos: after, record: read, result: Err(Error::MalformedLength) }
    } else if len + leb128_value(bytes, pos) > budget {
        Prefix { pos: after, record: read, result: Err(Error::SizeMismatch) }
    } else {
        Prefix { pos: after, record: read, result: Ok(leb128_value(bytes, pos) as u64) }
    }
}

/// What the parsing of a unit leaves behind.
pub struct Parsed {
    /// The cursor, where parsing did not run out of buffer.
    pub pos: int,
    /// What the stream then remembers of the LEB128 value it read last.
    pub record: Leb128Record,
    pub parser: Parser,
    pub result: Result<(), Error>,
}

/// The parsing of the `size` bytes of a frame unit from bit `pos` on: OBU
/// after OBU, each behind its length, until no byte is left. Each OBU has
/// to take the bytes of its length exactly.
pub open spec fn frame_unit_outcome(
    bytes: Seq<u8>,
    pos: int,
    size: u64,
    record: Leb128Record,
    parser: Parser,
) -> Parsed
    decreases size,
    via frame_unit_descends
{
    if size == 0 {
        Parsed { pos, record, parser, result: Ok(()) }
    } else {
        let prefix = length_prefix(bytes, pos, size, record);
        match prefix.result {
            Err(e) => Parsed { pos: prefix.pos, record: prefix.record, parser, result: Err(e) },
            Ok(obu_length) => {
                let unit = unit_outcome(
                    bytes,
                    prefix.pos,
                    obu_length,
                    prefix.record,
                    parser.state,
                    parser.sequence_header,
                    parser.frame_id,
                );
                match unit.result {
                    Err(e) => Parsed {
                        pos: unit.pos,
                        record: unit.record,
                        parser: Parser { state: unit.state, ..parser },
                        result: Err(e),
                    },
                    Ok(decoded) => frame_unit_outcome(
                        bytes,
                        unit.pos,
                        (size - prefix.record.bytes - obu_length) as u64,
                        unit.record,
                        parser.absorbed(decoded, unit.state),
                    ),
                }
            },
        }
    }
}

#[via_fn]
proof fn frame_unit_descends(
    bytes: Seq<u8>,
    pos: int,
    size: u64,
    record: Leb128Record,
    parser: Parser,
) {
    lemma_leb128_len_from(bytes, pos, 0);
}

/// The parsing of the `size` bytes of a temporal unit from bit `pos` on:
/// frame unit after frame unit, each behind its length, until no byte is
/// left.
pub open spec fn temporal_unit_outcome(
    bytes: Seq<u8>,
    pos: int,
    size: u64,
    record: Leb128Record,
    parser: Parser,
) -> Parsed
    decreases size,
    via temporal_unit_descends
{
    if size == 0 {
        Parsed { pos, record, parser, result: Ok(()) }
    } else {
        let prefix = length_prefix(bytes, pos, size, record);
        match prefix.result {
            Err(e) => Parsed { pos: prefix.pos, record: prefix.record, parser, result: Err(e) },
            Ok(frame_unit_size) => {
                let unit = frame_unit_outcome(
                    bytes,
                    prefix.pos,
                    frame_unit_size,
                    prefix.record,
                    parser,
                );
                match unit.result {
                    Err(e) => unit,
                    Ok(_) => temporal_unit_outcome(
                        bytes,
                        unit.pos,
                        (size - prefix.record.bytes - frame_unit_size) as u64,
                        unit.record,
                        unit.parser,
                    ),
                }
            },
        }
    }
}

#[via_fn]
proof fn temporal_unit_descends(
    bytes: Seq<u8>,
    pos: int,
    size: u64,
    record: Leb128Record,
    parser: Parser,
) {
    lemma_leb128_len_from(bytes, pos, 0);
}

/// The parsing of the temporal unit at bit `pos`: its size, and then the
/// bytes of that size.
pub open spec fn next_temporal_unit_outcome(
    bytes: Seq<u8>,
    pos: int,
    record: Leb128Record,
    parser: Parser,
) -> Parsed {
    let prefix = length_prefix(bytes, pos, u64::MAX, record);
    match prefix.result {
        Err(e) => Parsed { pos: prefix.pos, record: prefix.record, parser, result: Err(e) },
        Ok(temporal_unit_size) => temporal_unit_outcome(
            bytes,
            prefix.pos,
            temporal_unit_size,
            prefix.record,
            parser,
        ),
    }
}

/// The parsing of a bitstream from bit `pos` on: temporal unit after
/// temporal unit, each behind its size, as long as the buffer holds more.
pub open spec fn bitstream_outcome(bytes: Seq<u8>, pos: int, record: Leb128Record, parser: Parser) -> Parsed
    decreases 8 * bytes.len() - pos,
    via bitstream_descends
{
    if pos < 0 || pos >= 8 * bytes.len() {
        Parsed { pos, record, parser, result: Ok(()) }
    } else {
        let unit = next_temporal_unit_outcome(bytes, pos, record, parser);
        if unit.result is Ok && pos < unit.pos <= 8 * bytes.len() {
            bitstream_outcome(bytes, unit.pos, unit.record, unit.parser)
        } else {
            unit
        }
    }
}

#[via_fn]
proof fn bitstream_descends(bytes: Seq<u8>, pos: int, record: Leb128Record, parser: Parser) {
}

/// A unit that is parsed to its end takes the bytes of its size exactly.
pub proof fn lemma_frame_unit_exact(
    bytes: Seq<u8>,
    pos: int,
    size: u64,
    record: Leb128Record,
    parser: Parser,
)
    ensures
        frame_unit_outcome(bytes, pos, size, record, parser).result is Ok ==> frame_unit_outcome(
            bytes,
            pos,
            size,
            record,
            parser,
        ).pos == pos + 8 * size,
    decreases size,
{
    lemma_leb128_len_from(bytes, pos, 0);
    if size != 0 {
        let prefix = length_prefix(bytes, pos, size, record);
        if let Ok(obu_length) = prefix.result {
            let unit = unit_outcome(
                bytes,
                prefix.pos,
                obu_length,
                prefix.record,
                parser.state,
                parser.sequence_header,
                parser.frame_id,
            );
            lemma_unit_exact(
                bytes,
                prefix.pos,
                obu_length,
                prefix.record,
                parser.state,
                parser.sequence_header,
                parser.frame_id,
            );
            if let Ok(decoded) = unit.result {
                lemma_frame_unit_exact(
                    bytes,
                    unit.pos,
                    (size - prefix.record.bytes - obu_length) as u64,
                    unit.record,
                    parser.absorbed(decoded, unit.state),
                );
            }
        }
    }
}

/// A temporal unit that is parsed to its end takes the bytes of its size
/// exactly: the lengths of its frame units, each with the bytes of its own
/// length prefix, add up to that size.
pub proof fn lemma_temporal_unit_exact(
    bytes: Seq<u8>,
    pos: int,
    size: u64,
    record: Leb128Record,
    parser: Parser,
)
    ensures
        temporal_unit_outcome(bytes, pos, size, record, parser).result is Ok
            ==> temporal_unit_outcome(bytes, pos, size, record, parser).pos == pos + 8 * size,
    decreases size,
{
    lemma_leb128_len_from(bytes, pos, 0);
    if size != 0 {
        let prefix = length_prefix(bytes, pos, size, record);
        if let Ok(frame_unit_size) = prefix.result {
            let unit = frame_unit_outcome(bytes, prefix.pos, frame_unit_size, prefix.record, parser);
            lemma_frame_unit_exact(bytes, prefix.pos, frame_unit_size, prefix.record, parser);
            if unit.result is Ok {
                lemma_temporal_unit_exact(
                    bytes,
                    unit.pos,
                    (size - prefix.record.bytes - frame_unit_size) as u64,
                    unit.record,
                    unit.parser,
                );
            }
        }
    }
}

/// The bytes that `count` units take that follow one another from bit
/// `pos` on, each behind its length: for each unit the bytes of its length
/// prefix and the bytes that the prefix gives.
pub open spec fn prefixed_bytes(bytes: Seq<u8>, pos: int, count: nat) -> nat
    decreases count,
{
    if count == 0 {
        0
    } else {
        let unit = leb128_len(bytes, pos) + leb128_value(bytes, pos);
        unit + prefixed_bytes(bytes, pos + 8 * unit, (count - 1) as nat)
    }
}

/// The number of units, each behind its length, that follow one another
/// from bit `pos` on within `size` bytes.
pub open spec fn units_within(bytes: Seq<u8>, pos: int, size: nat) -> nat
    decreases size,
    via units_within_descends
{
    let unit = leb128_len(bytes, pos) + leb128_value(bytes, pos);
    if size == 0 || unit > size {
        0
    } else {
        1 + units_within(bytes, pos + 8 * unit, (size - unit) as nat)
    }
}

#[via_fn]
proof fn units_within_descends(bytes: Seq<u8>, pos: int, size: nat) {
    lemma_leb128_len_from(bytes, pos, 0);
}

/// In a temporal unit that is parsed to its end, the byte counts of the
/// length prefixes of its frame units and the lengths that they give add
/// up to the size of the temporal unit.
pub proof fn lemma_temporal_unit_sums(
    bytes: Seq<u8>,
    pos: int,
    size: u64,
    record: Leb128Record,
    parser: Parser,
)
    ensures
        temporal_unit_outcome(bytes, pos, size, record, parser).result is Ok ==> prefixed_bytes(
            bytes,
            pos,
            units_within(bytes, pos, size as nat),
        ) == size,
    decreases size,
{
    lemma_leb128_len_from(bytes, pos, 0);
    if size != 0 {
        let prefix = length_prefix(bytes, pos, size, record);
        if let Ok(frame_unit_size) = prefix.result {
            let unit = frame_unit_outcome(bytes, prefix.pos, frame_unit_size, prefix.record, parser);
            lemma_frame_unit_exact(bytes, prefix.pos, frame_unit_size, prefix.record, parser);
            if unit.result is Ok {
                lemma_temporal_unit_sums(
                    bytes,
                    unit.pos,
                    (size - prefix.record.bytes - frame_unit_size) as u64,
                    unit.record,
                    unit.parser,
                );
            }
        }
    }
}

/// A frame unit whose length, with the bytes of its length prefix, is more
/// than what is left of its temporal unit makes the sizes not match.
pub proof fn lemma_overrun_is_size_mismatch(
    bytes: Seq<u8>,
    pos: int,
    size: u64,
    record: Leb128Record,
    parser: Parser,
)
    requires
        size > 0,
        pos + 8 * leb128_len(bytes, pos) <= 8 * bytes.len(),
        leb128_terminated(bytes, pos),
        leb128_len(bytes, pos) + leb128_value(bytes, pos) > size,
    ensures
        temporal_unit_outcome(bytes, pos, size, record, parser).result == Err::<(), Error>(
            Error::SizeMismatch,
        ),
        frame_unit_outcome(bytes, pos, size, record, parser).result == Err::<(), Error>(
            Error::SizeMismatch,
        ),
{
}

/// What parsing owes, where `parsed` is what the model gives for it: that
/// result and session, what the stream remembers, and the cursor, unless
/// the buffer ran out.
pub open spec fn parsed_as(
    before: &BitStream,
    after: &BitStream,
    parser: Parser,
    r: Result<(), Error>,
    parsed: Parsed,
) -> bool {
    &&& after@ == before@
    &&& 0 <= before.pos() <= after.pos() <= 8 * before@.len()
    &&& r == parsed.result
    &&& parser == parsed.parser
    &&& after.record() == parsed.record
    &&& r != Err::<(), Error>(Error::EndOfStream) ==> after.pos() == parsed.pos
}

impl Parser {
    /// The session holds a state and a sequence header as the decoders
    /// leave them.
    pub open spec fn wf(self) -> bool {
        self.state.wf() && (self.sequence_header matches Some(sh) ==> sh.wf())
    }

    /// A session at its start: nothing seen yet.
    pub open spec fn initial() -> Parser {
        Parser { state: State::initial(), sequence_header: None, frame_id: None }
    }

    /// The session after an OBU that gave `unit` and left the state
    /// `state`: a sequence header comes into force, and a frame header
    /// leaves the id of its frame.
    pub open spec fn absorbed(self, unit: Option<OpenBitstreamUnit>, state: State) -> Parser {
        match unit {
            Some(OpenBitstreamUnit { payload: ObuPayload::SequenceHeader(sh), .. }) => Parser {
                state,
                sequence_header: Some(sh),
                ..self
            },
            Some(OpenBitstreamUnit { payload: ObuPayload::FrameHeader(fh), .. }) => Parser {
                state,
                frame_id: Some(fh.uncompressed_header.current_frame_id),
                ..self
            },
            None => Parser { state, ..self },
        }
    }

    /// A session at its start.
    pub fn new() -> (parser: Parser)
        ensures
            parser == Parser::initial(),
            parser.wf(),
    {
        Parser { state: State::new(), sequence_header: None, frame_id: None }
    }

    /// Reads the length prefix of a unit inside a unit of which `budget`
    /// bytes are left.
    fn read_length(b: &mut BitStream, budget: u64) -> (r: Result<u64, Error>)
        ensures
            final(b)@ == old(b)@,
            0 <= old(b).pos() <= final(b).pos() <= 8 * old(b)@.len(),
            r == length_prefix(old(b)@, old(b).pos(), budget, old(b).record()).result,
            final(b).record() == length_prefix(old(b)@, old(b).pos(), budget, old(b).record()).record,
            r != Err::<u64, Error>(Error::EndOfStream) ==> final(b).pos() == length_prefix(
                old(b)@,
                old(b).pos(),
                budget,
                old(b).record(),
            ).pos,
            r matches Ok(v) ==> 1 <= final(b).record().bytes <= 8 && final(b).record().bytes + v
                <= budget,
    {
        let value = b.leb128()?;
        if !b.leb_128_terminated() {
            return Err(Error::MalformedLength);
        }
        if b.leb_128_bytes() + value > budget {
            return Err(Error::SizeMismatch);
        }
        Ok(value)
    }

    /// Takes in what an OBU gave.
    fn absorb(&mut self, unit: Option<OpenBitstreamUnit>)
        ensures
            *final(self) == old(self).absorbed(unit, old(self).state),
    {
        match unit {
            Some(OpenBitstreamUnit { payload: ObuPayload::SequenceHeader(sh), .. }) => {
                *self = Parser { sequence_header: Some(sh), ..*self };
            },
            Some(OpenBitstreamUnit { payload: ObuPayload::FrameHeader(fh), .. }) => {
                *self = Parser { frame_id: Some(fh.uncompressed_header.current_frame_id), ..*self };
            },
            None => {},
        }
    }
}

impl Parser {
    /// Parses the OBUs of a frame unit of `size` bytes.
    pub fn frame_unit(&mut self, b: &mut BitStream, size: u64) -> (r: Result<(), Error>)
        requires
            old(self).wf(),
        ensures
            parsed_as(
                old(b),
                final(b),
                *final(self),
                r,
                frame_unit_outcome(old(b)@, old(b).pos(), size, old(b).record(), *old(self)),
            ),
            final(self).wf(),
            r is Ok ==> final(b).pos() == old(b).pos() + 8 * size,
    {
        proof {
            use_type_invariant(&*b);
            b.lemma_in_bounds();
            lemma_frame_unit_exact(b@, b.pos(), size, b.record(), *self);
        }
        let ghost goal = frame_unit_outcome(b@, b.pos(), size, b.record(), *self);
        let mut sz = size;
        while sz > 0
            invariant
                self.wf(),
                b@ == old(b)@,
                0 <= old(b).pos() <= b.pos() <= 8 * b@.len(),
                goal == frame_unit_outcome(
                    old(b)@,
                    old(b).pos(),
                    size,
                    old(b).record(),
                    *old(self),
                ),
                frame_unit_outcome(b@, b.pos(), sz, b.record(), *self) == goal,
            decreases sz,
        {
            let obu_length = Self::read_length(b, sz)?;
            sz = sz - b.leb_128_bytes();
            let unit = OpenBitstreamUnit::new(
                b,
                obu_length,
                &mut self.state,
                &self.sequence_header,
                self.frame_id,
            )?;
            self.absorb(unit);
            sz = sz - obu_length;
        }
        Ok(())
    }

    /// Parses the frame units of a temporal unit of `size` bytes.
    pub fn temporal_unit(&mut self, b: &mut BitStream, size: u64) -> (r: Result<(), Error>)
        requires
            old(self).wf(),
        ensures
            parsed_as(
                old(b),
                final(b),
                *final(self),
                r,
                temporal_unit_outcome(old(b)@, old(b).pos(), size, old(b).record(), *old(self)),
            ),
            final(self).wf(),
            r is Ok ==> final(b).pos() == old(b).pos() + 8 * size,
    {
        proof {
            use_type_invariant(&*b);
            b.lemma_in_bounds();
            lemma_temporal_unit_exact(b@, b.pos(), size, b.record(), *self);
        }
        let ghost goal = temporal_unit_outcome(b@, b.pos(), size, b.record(), *self);
        let mut sz = size;
        while sz > 0
            invariant
                self.wf(),
                b@ == old(b)@,
                0 <= old(b).pos() <= b.pos() <= 8 * b@.len(),
                goal == temporal_unit_outcome(
                    old(b)@,
                    old(b).pos(),
                    size,
                    old(b).record(),
                    *old(self),
                ),
                temporal_unit_outcome(b@, b.pos(), sz, b.record(), *self) == goal,
            decreases sz,
        {
            let frame_unit_size = Self::read_length(b, sz)?;
            sz = sz - b.leb_128_bytes();
            self.frame_unit(b, frame_unit_size)?;
            sz = sz - frame_unit_size;
        }
        Ok(())
    }

    /// Parses the temporal unit at the cursor: reads its size and parses
    /// the frame units that it holds. A caller that knows by other means
    /// whether more data is to come parses a bitstream by calling this
    /// while there is.
    pub fn next_temporal_unit(&mut self, b: &mut BitStream) -> (r: Result<(), Error>)
        requires
            old(self).wf(),
        ensures
            parsed_as(
                old(b),
                final(b),
                *final(self),
                r,
                next_temporal_unit_outcome(old(b)@, old(b).pos(), old(b).record(), *old(self)),
            ),
            final(self).wf(),
            r is Ok ==> final(b).pos() > old(b).pos(),
    {
        let temporal_unit_size = Self::read_length(b, u64::MAX)?;
        self.temporal_unit(b, temporal_unit_size)
    }

    /// Parses temporal units as long as the buffer holds more.
    pub fn bitstream(&mut self, b: &mut BitStream) -> (r: Result<(), Error>)
        requires
            old(self).wf(),
        ensures
            parsed_as(
                old(b),
                final(b),
                *final(self),
                r,
                bitstream_outcome(old(b)@, old(b).pos(), old(b).record(), *old(self)),
            ),
            final(self).wf(),
            r is Ok ==> final(b).pos() == 8 * old(b)@.len(),
    {
        proof {
            use_type_invariant(&*b);
            b.lemma_in_bounds();
        }
        let ghost goal = bitstream_outcome(b@, b.pos(), b.record(), *self);
        while b.more_data_in_bitstream()
            invariant
                self.wf(),
                b@ == old(b)@,
                0 <= old(b).pos() <= b.pos() <= 8 * b@.len(),
                goal == bitstream_outcome(old(b)@, old(b).pos(), old(b).record(), *old(self)),
                bitstream_outcome(b@, b.pos(), b.record(), *self) == goal,
            decreases 8 * b@.len() - b.pos(),
        {
            self.next_temporal_unit(b)?;
        }
        Ok(())
    }
}

impl Default for Parser {
    fn default() -> (parser: Parser)
        ensures
            parser == Parser::initial(),
    {
        Parser::new()
    }
}

} // verus!
