//! The values a decode produces: instruction forms, operands, decoded
//! instructions and decode failures.
use vstd::prelude::*;

verus! {

/// An encoding recognised by the decoder, with the bitfields read from its
/// leading byte(s).
#[derive(Clone, Copy, Debug, PartialEq, Eq, Structural)]
pub enum InstructionForm {
    /// `100010dw` followed by a `mod reg rm` byte.
    RegMemToReg { direction: bool, wide: bool, mode: u8, reg: u8, rm: u8 },
    /// `1011wrrr`.
    ImmediateToReg { wide: bool, reg: u8 },
}

/// A literal read from the instruction stream: one byte or a
/// little-endian word.
#[derive(Clone, Copy, Debug, PartialEq, Eq, Structural)]
pub enum Value {
    Byte(u8),
    Word(u16),
}

/// One operand of a decoded instruction.
#[derive(Clone, Copy, Debug, PartialEq, Eq, Structural)]
pub enum Operand {
    /// A register, by its 3-bit selector and the width bit.
    Register { index: u8, wide: bool },
    /// An absolute 16-bit memory address.
    DirectAddress(u16),
    /// A base-register equation (by its `rm` selector) plus an optional
    /// displacement.
    EffectiveAddress { rm: u8, displacement: Option<Value> },
    /// An immediate literal.
    Immediate(Value),
}

/// The operation of a decoded instruction.
#[derive(Clone, Copy, Debug, PartialEq, Eq, Structural)]
pub enum Mnemonic {
    Mov,
}

/// One decoded instruction.
#[derive(Clone, Copy, Debug, PartialEq, Eq, Structural)]
pub struct DecodedInstruction {
    pub mnemonic: Mnemonic,
    pub destination: Operand,
    pub source: Operand,
}

/// Why a decode stopped. `offset` is the position of the first byte of the
/// instruction that could not be decoded.
#[derive(Clone, Copy, Debug, PartialEq, Eq, Structural)]
pub enum DecodeError {
    /// The matched form needs more bytes than remain.
    TruncatedInput { offset: usize },
    /// The leading byte matches no recognised encoding.
    UnsupportedOpcode { offset: usize, byte: u8 },
}

} // verus!
