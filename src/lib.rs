//! A decoder for the 8086 `mov` encodings (register/memory to/from
//! register, immediate to register): machine-code bytes in, one line of
//! assembly text per instruction out, or a typed failure with the offset of
//! the instruction that could not be decoded.
//!
//! `decoder` holds the spec model of a decode step and of a whole stream and
//! the executable decoder proved against it; `render` turns instructions
//! into text; `laws` states and proves properties of the decoder.
pub mod decoder;
pub mod instruction;
pub mod laws;
pub mod render;
pub mod tables;
