//! Decoding of JEDEC fuse-map (.jed) files and interpretation of the
//! resulting fuse array as the configuration of a programmable logic device.
//!
//! - `jed`: the STX/ETX frame, the file checksum and the whole-file parser;
//! - `fields`: the `*`-separated fields of the body and the fuse array they build;
//! - `device`: lookup in a device table and decoding of output-enable and ZIA bits;
//! - `digits`: decimal and hexadecimal numbers;
//! - `errors`, `text`: the error types and their messages.
pub mod device;
pub mod digits;
pub mod errors;
pub mod fields;
pub mod jed;
pub mod text;
