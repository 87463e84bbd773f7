//! Conveniences around the core: device information and recorded audio.

pub mod msbc_file;
pub mod parse;
