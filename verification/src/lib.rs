//! What a photo library decides between a file and its pixels, and between a
//! search in words and the call of its search tool.
//!
//! Decoding: `sniff` tells what a file is; `raw_limits`, `dng`, `dng_codec`,
//! `jpeg_xl` and `jpeg_xl_preflight` keep a camera RAW from making its decoder
//! allocate without bounds; `raw_pipeline`, `image_crate`, `tiff_fallback`,
//! `orientation` and `decode` lead from bytes to an upright sRGB image.
//!
//! Searching: `prompt` writes what FunctionGemma is asked, `gemma_value`,
//! `gemma_text` and `gemma_round_trip` read and write its notation, `tool_call`
//! turns its output into one call, and `natural_search` runs the whole.

pub mod arith;
pub mod decode;
pub mod decoder_hooks;
pub mod dng;
pub mod dng_block;
pub mod dng_codec;
pub mod dng_ifd;
pub mod error;
pub mod gemma_round_trip;
pub mod gemma_text;
pub mod gemma_value;
pub mod image_crate;
pub mod jpeg_xl;
pub mod jpeg_xl_preflight;
pub mod json;
pub mod natural_search;
pub mod orientation;
pub mod prompt;
pub mod raw_limits;
pub mod raw_pipeline;
pub mod sniff;
pub mod text;
pub mod tiff_fallback;
pub mod tool_call;
pub mod types;
