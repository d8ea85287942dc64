//! Assembles raster images (PNG, JPEG, and generically decoded formats) into
//! a single PDF document.
//!
//! The library parses image headers byte-exactly, decides per file whether the
//! compressed pixel data can be embedded unchanged ("passthrough") or must be
//! decoded and recompressed, and builds the complete PDF object graph around
//! the result. Compression, image decoding and final PDF serialization are
//! delegated to outside codec libraries behind small trusted wrappers.

pub mod assemble;
pub mod codec;
pub mod err;
pub mod format;
pub mod jpeg;
pub mod layout;
pub mod object;
pub mod pdfdate;
pub mod png;
pub mod prepare;
pub mod ranges;
