//! The header that starts every open bitstream unit.

use crate::bits::bitstream::{field, flag, BitStream};
use crate::error::Error;
use vstd::arithmetic::power2::lemma2_to64;
use vstd::prelude::*;

verus! {

/// What an OBU carries.
#[derive(Debug, Clone, Copy, PartialEq, Eq, Structural)]
pub enum ObuType {
    Reserved,
    ObuSequenceHeader,
    ObuTemporalDelimiter,
    ObuFrameHeader,
    ObuTileGroup,
    ObuMetadata,
    ObuFrame,
    ObuRedundantFrameHeader,
    ObuTileList,
    ObuPadding,
}

impl ObuType {
    /// The type that a four-bit code stands for.
    pub open spec fn of_code(code: u64) -> ObuType {
        if code == 1 {
            ObuType::ObuSequenceHeader
        } else if code == 2 {
            ObuType::ObuTemporalDelimiter
        } else if code == 3 {
            ObuType::ObuFrameHeader
        } else if code == 4 {
            ObuType::ObuTileGroup
        } else if code == 5 {
            ObuType::ObuMetadata
        } else if code == 6 {
            ObuType::ObuFrame
        } else if code == 7 {
            ObuType::ObuRedundantFrameHeader
        } else if code == 8 {
            ObuType::ObuTileList
        } else if code == 15 {
            ObuType::ObuPadding
        } else {
            ObuType::Reserved
        }
    }

    /// Whether operating-point selection may drop an OBU of this type: every
    /// type but the sequence header and the temporal delimiter.
    pub open spec fn is_filterable(self) -> bool {
        self != ObuType::ObuSequenceHeader && self != ObuType::ObuTemporalDelimiter
    }

    /// Maps a type code to its type; codes above 15 do not fit the field.
    pub fn new(i: u64) -> (r: Result<ObuType, Error>)
        ensures
            r == if i <= 15 {
                Ok::<ObuType, Error>(ObuType::of_code(i))
            } else {
                Err(Error::InvalidObuType)
            },
    {
        match i {
            0 => Ok(ObuType::Reserved),
            1 => Ok(ObuType::ObuSequenceHeader),
            2 => Ok(ObuType::ObuTemporalDelimiter),
            3 => Ok(ObuType::ObuFrameHeader),
            4 => Ok(ObuType::ObuTileGroup),
            5 => Ok(ObuType::ObuMetadata),
            6 => Ok(ObuType::ObuFrame),
            7 => Ok(ObuType::ObuRedundantFrameHeader),
            8 => Ok(ObuType::ObuTileList),
            9..=14 => Ok(ObuType::Reserved),
            15 => Ok(ObuType::ObuPadding),
            _ => Err(Error::InvalidObuType),
        }
    }

    /// Whether operating-point selection may drop an OBU of this type.
    pub fn filterable(&self) -> (r: bool)
        ensures
            r == self.is_filterable(),
    {
        !matches!(self, ObuType::ObuSequenceHeader | ObuType::ObuTemporalDelimiter)
    }
}

/// The optional second header byte: the layers an OBU belongs to.
#[derive(Debug, Clone, Copy, PartialEq, Eq, Structural)]
pub struct ObuExtensionHeader {
    pub temporal_id: u64,
    pub spatial_id: u64,
    pub extension_header_reserved_3bits: u64,
}

impl ObuExtensionHeader {
    /// The extension header written in the eight bits from `pos`.
    pub open spec fn parse(bytes: Seq<u8>, pos: int) -> ObuExtensionHeader {
        ObuExtensionHeader {
            temporal_id: field(bytes, pos, 3),
            spatial_id: field(bytes, pos + 3, 2),
            extension_header_reserved_3bits: field(bytes, pos + 5, 3),
        }
    }

    /// Both layer ids are within the width of their fields.
    pub open spec fn wf(self) -> bool {
        self.temporal_id < 8 && self.spatial_id < 4
    }

    /// Decodes the extension header in the eight bits at the cursor.
    pub fn new(bitstream: &mut BitStream) -> (r: Result<ObuExtensionHeader, Error>)
        ensures
            final(bitstream).decoded(
                old(bitstream),
                r,
                Self::parse(old(bitstream)@, old(bitstream).pos()),
                old(bitstream).pos() + 8,
            ),
            r is Ok ==> r->Ok_0.wf(),
    {
        let temporal_id = bitstream.f(3)?;
        let spatial_id = bitstream.f(2)?;
        let extension_header_reserved_3bits = bitstream.f(3)?;
        proof {
            lemma2_to64();
        }
        Ok(ObuExtensionHeader { temporal_id, spatial_id, extension_header_reserved_3bits })
    }
}

/// The header of an OBU: its type, and whether an extension header and a
/// size field follow.
#[derive(Debug, Clone, Copy, PartialEq, Eq, Structural)]
pub struct ObuHeader {
    pub obu_forbidden_bit: bool,
    pub obu_type: ObuType,
    pub obu_extension_flag: bool,
    pub obu_has_size_field: bool,
    pub obu_reserved_1bit: bool,
    pub obu_extension_header: Option<ObuExtensionHeader>,
}

impl ObuHeader {
    /// The header written from bit `pos` on: one byte, and the extension byte
    /// after it where the extension flag is set.
    pub open spec fn parse(bytes: Seq<u8>, pos: int) -> ObuHeader {
        let obu_extension_flag = flag(bytes, pos + 5);
        ObuHeader {
            obu_forbidden_bit: flag(bytes, pos),
            obu_type: ObuType::of_code(field(bytes, pos + 1, 4)),
            obu_extension_flag,
            obu_has_size_field: flag(bytes, pos + 6),
            obu_reserved_1bit: flag(bytes, pos + 7),
            obu_extension_header: if obu_extension_flag {
                Some(ObuExtensionHeader::parse(bytes, pos + 8))
            } else {
                None
            },
        }
    }

    /// The number of bytes the header takes.
    pub open spec fn spec_len(self) -> nat {
        if self.obu_extension_flag {
            2
        } else {
            1
        }
    }

    /// The extension header is there exactly when the flag says so, and its
    /// layer ids are within the width of their fields.
    pub open spec fn wf(self) -> bool {
        &&& self.obu_extension_flag == self.obu_extension_header.is_some()
        &&& self.obu_extension_header matches Some(e) ==> e.wf()
    }

    /// The temporal layer of the OBU; 0 without an extension header.
    pub open spec fn temporal_id(self) -> u64 {
        match self.obu_extension_header {
            Some(e) => e.temporal_id,
            None => 0,
        }
    }

    /// The spatial layer of the OBU; 0 without an extension header.
    pub open spec fn spatial_id(self) -> u64 {
        match self.obu_extension_header {
            Some(e) => e.spatial_id,
            None => 0,
        }
    }

    /// Whether the OBU belongs to the operating point with mask `idc`: the
    /// bit of its temporal layer and, eight places higher, the bit of its
    /// spatial layer are both set in the mask.
    pub open spec fn spec_in_operating_point(self, idc: u64) -> bool {
        &&& (idc >> self.temporal_id()) & 1 == 1
        &&& (idc >> (self.spatial_id() + 8)) & 1 == 1
    }

    /// Whether the OBU belongs to the operating point with mask `idc`.
    pub fn in_operating_point(&self, idc: u64) -> (r: bool)
        requires
            self.wf(),
        ensures
            r == self.spec_in_operating_point(idc),
    {
        let (temporal_id, spatial_id) = match self.obu_extension_header {
            Some(e) => (e.temporal_id, e.spatial_id),
            None => (0, 0),
        };
        (idc >> temporal_id) & 1 == 1 && (idc >> (spatial_id + 8)) & 1 == 1
    }

    /// Decodes the header at the cursor, with its extension header where it
    /// has one.
    pub fn new(bitstream: &mut BitStream) -> (r: Result<ObuHeader, Error>)
        ensures
            final(bitstream).decoded(
                old(bitstream),
                r,
                Self::parse(old(bitstream)@, old(bitstream).pos()),
                old(bitstream).pos() + 8 * Self::parse(old(bitstream)@, old(bitstream).pos()).spec_len(),
            ),
            r is Ok ==> r->Ok_0.wf(),
    {
        let obu_forbidden_bit = bitstream.flag()?;
        let code = bitstream.f(4)?;
        proof {
            lemma2_to64();
        }
        let obu_type = ObuType::new(code)?;
        let obu_extension_flag = bitstream.flag()?;
        let obu_has_size_field = bitstream.flag()?;
        let obu_reserved_1bit = bitstream.flag()?;

        let obu_extension_header = match obu_extension_flag {
            true => Some(ObuExtensionHeader::new(bitstream)?),
            false => None,
        };

        Ok(
            ObuHeader {
                obu_forbidden_bit,
                obu_type,
                obu_extension_flag,
                obu_has_size_field,
                obu_reserved_1bit,
                obu_extension_header,
            },
        )
    }
}

} // verus!
