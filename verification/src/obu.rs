//! Open bitstream units and the headers they carry.

pub mod color_config;
pub mod decoder_model_info;
pub mod obu_header;
pub mod obu_sequence_header;
pub mod operating_parameters_info;
pub mod timing_info;
pub mod obu_frame_header;
pub mod open_bitstream_unit;
