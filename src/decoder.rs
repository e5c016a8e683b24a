//! The variable-length instruction decoder: the spec of one decode step and
//! of a whole stream, and the executable decoder proved against them.
use vstd::prelude::*;

use crate::render::instruction_in_range;
use crate::instruction::{DecodeError, DecodedInstruction, InstructionForm, Mnemonic, Operand, Value};

verus! {

/// `100010xx`: register/memory to/from register.
pub open spec fn is_reg_mem_opcode(b: u8) -> bool {
    b / 4 == 0b100010
}

/// `1011xxxx`: immediate to register.
pub open spec fn is_immediate_opcode(b: u8) -> bool {
    b / 16 == 0b1011
}

/// Bits 7-6 of a `mod reg rm` byte.
pub open spec fn field_mode(b: u8) -> u8 {
    b / 64
}

/// Bits 5-3 of a `mod reg rm` byte.
pub open spec fn field_reg(b: u8) -> u8 {
    (b / 8) % 8
}

/// Bits 2-0 of a byte.
pub open spec fn field_low3(b: u8) -> u8 {
    b % 8
}

/// Bit `k` (0 = least significant, `k < 8`) of a byte.
pub open spec fn bit(b: u8, k: nat) -> bool {
    if k == 0 {
        b % 2 == 1
    } else if k == 1 {
        (b / 2) % 2 == 1
    } else if k == 2 {
        (b / 4) % 2 == 1
    } else if k == 3 {
        (b / 8) % 2 == 1
    } else if k == 4 {
        (b / 16) % 2 == 1
    } else if k == 5 {
        (b / 32) % 2 == 1
    } else if k == 6 {
        (b / 64) % 2 == 1
    } else {
        b / 128 == 1
    }
}

/// The little-endian 16-bit value of two bytes.
pub open spec fn le_word(lo: u8, hi: u8) -> u16 {
    (lo as int + 256 * hi as int) as u16
}

/// Number of displacement bytes that follow the `mod reg rm` byte of a
/// memory operand.
pub open spec fn displacement_len(mode: u8, rm: u8) -> nat {
    if mode == 0 {
        if rm == 6 { 2 } else { 0 }
    } else if mode == 1 {
        1
    } else if mode == 2 {
        2
    } else {
        0
    }
}

/// The form that an opcode byte `b0` followed by `b1` encodes, for an
/// opcode of either recognised pattern.
pub open spec fn form_of(b0: u8, b1: u8) -> InstructionForm {
    if is_reg_mem_opcode(b0) {
        InstructionForm::RegMemToReg {
            direction: bit(b0, 1),
            wide: bit(b0, 0),
            mode: field_mode(b1),
            reg: field_reg(b1),
            rm: field_low3(b1),
        }
    } else {
        InstructionForm::ImmediateToReg { wide: bit(b0, 3), reg: field_low3(b0) }
    }
}

/// Total length in bytes of an instruction of the given form.
pub open spec fn form_len(form: InstructionForm) -> nat {
    match form {
        InstructionForm::RegMemToReg { mode, rm, .. } => 2 + displacement_len(mode, rm),
        InstructionForm::ImmediateToReg { wide, .. } => if wide { 3 } else { 2 },
    }
}

/// The memory or register operand named by the `mod` and `rm` fields, whose
/// trailing bytes start at `at`.
pub open spec fn rm_operand(bytes: Seq<u8>, at: int, mode: u8, rm: u8, wide: bool) -> Operand {
    if mode == 3 {
        Operand::Register { index: rm, wide }
    } else if mode == 0 && rm == 6 {
        Operand::DirectAddress(le_word(bytes[at], bytes[at + 1]))
    } else if mode == 0 {
        Operand::EffectiveAddress { rm, displacement: None }
    } else if mode == 1 {
        Operand::EffectiveAddress { rm, displacement: Some(Value::Byte(bytes[at])) }
    } else {
        Operand::EffectiveAddress {
            rm,
            displacement: Some(Value::Word(le_word(bytes[at], bytes[at + 1]))),
        }
    }
}

/// The instruction of a form whose bytes all lie in `bytes` from `pos` on.
pub open spec fn instruction_of(bytes: Seq<u8>, pos: int, form: InstructionForm) -> DecodedInstruction {
    match form {
        InstructionForm::RegMemToReg { direction, wide, mode, reg, rm } => {
            let r = Operand::Register { index: reg, wide };
            let m = rm_operand(bytes, pos + 2, mode, rm, wide);
            if direction {
                DecodedInstruction { mnemonic: Mnemonic::Mov, destination: r, source: m }
            } else {
                DecodedInstruction { mnemonic: Mnemonic::Mov, destination: m, source: r }
            }
        },
        InstructionForm::ImmediateToReg { wide, reg } => {
            let v = if wide {
                Value::Word(le_word(bytes[pos + 1], bytes[pos + 2]))
            } else {
                Value::Byte(bytes[pos + 1])
            };
            DecodedInstruction {
                mnemonic: Mnemonic::Mov,
                destination: Operand::Register { index: reg, wide },
                source: Operand::Immediate(v),
            }
        },
    }
}

/// One decode step at `pos < bytes.len()`: the instruction there and the
/// position just past it, or why there is none.
pub open spec fn decode_at(bytes: Seq<u8>, pos: int) -> Result<(DecodedInstruction, int), DecodeError> {
    let b0 = bytes[pos];
    if !is_reg_mem_opcode(b0) && !is_immediate_opcode(b0) {
        Err(DecodeError::UnsupportedOpcode { offset: pos as usize, byte: b0 })
    } else if pos + 2 > bytes.len() {
        Err(DecodeError::TruncatedInput { offset: pos as usize })
    } else {
        let form = form_of(b0, bytes[pos + 1]);
        if pos + form_len(form) > bytes.len() {
            Err(DecodeError::TruncatedInput { offset: pos as usize })
        } else {
            Ok((instruction_of(bytes, pos, form), pos + form_len(form)))
        }
    }
}

/// Decoding all of `bytes` from `pos` on: every instruction in order, or the
/// first failure.
pub open spec fn decode_from(bytes: Seq<u8>, pos: int) -> Result<Seq<DecodedInstruction>, DecodeError>
    decreases bytes.len() - pos,
{
    if pos < 0 || pos >= bytes.len() {
        Ok(Seq::empty())
    } else {
        match decode_at(bytes, pos) {
            Err(e) => Err(e),
            Ok((instr, next)) => {
                // a decode step always advances (see lemma_decode_at_advances)
                if next <= pos {
                    Ok(Seq::empty())
                } else {
                    match decode_from(bytes, next) {
                        Err(e) => Err(e),
                        Ok(rest) => Ok(seq![instr] + rest),
                    }
                }
            },
        }
    }
}

/// A successful decode step advances by at least two bytes and stays within
/// the input.
pub proof fn lemma_decode_at_advances(bytes: Seq<u8>, pos: int)
    requires
        0 <= pos < bytes.len(),
    ensures
        decode_at(bytes, pos) matches Ok((_, next)) ==> pos + 2 <= next <= bytes.len(),
{
}

/// Every instruction a decode produces has 3-bit register and `rm`
/// selectors.
pub proof fn lemma_decoded_in_range(bytes: Seq<u8>, pos: int)
    ensures
        decode_from(bytes, pos) matches Ok(instrs) ==> forall|i: int|
            0 <= i < instrs.len() ==> instruction_in_range(#[trigger] instrs[i]),
    decreases bytes.len() - pos,
{
    if 0 <= pos < bytes.len() {
        if let Ok((instr, next)) = decode_at(bytes, pos) {
            if next > pos {
                lemma_decoded_in_range(bytes, next);
            }
        }
    }
}

/// Reads the form at `pos`: the opcode byte and the byte after it (the
/// `mod reg rm` byte of a register/memory move, the first immediate byte
/// otherwise).
pub fn classify(bytes: &Vec<u8>, pos: usize) -> (r: Result<InstructionForm, DecodeError>)
    requires
        pos < bytes@.len(),
    ensures
        !is_reg_mem_opcode(bytes@[pos as int]) && !is_immediate_opcode(bytes@[pos as int]) ==> r
            == Err::<InstructionForm, DecodeError>(
            DecodeError::UnsupportedOpcode { offset: pos, byte: bytes@[pos as int] },
        ),
        is_reg_mem_opcode(bytes@[pos as int]) || is_immediate_opcode(bytes@[pos as int]) ==> if pos
            + 2 > bytes@.len() {
            r == Err::<InstructionForm, DecodeError>(DecodeError::TruncatedInput { offset: pos })
        } else {
            r == Ok::<InstructionForm, DecodeError>(form_of(bytes@[pos as int], bytes@[pos + 1]))
        },
{
    let b0 = bytes[pos];
    let reg_mem = b0 / 4 == 0b100010;
    let immediate = b0 / 16 == 0b1011;
    if !reg_mem && !immediate {
        return Err(DecodeError::UnsupportedOpcode { offset: pos, byte: b0 });
    }
    if bytes.len() - pos < 2 {
        return Err(DecodeError::TruncatedInput { offset: pos });
    }
    if reg_mem {
        let b1 = bytes[pos + 1];
        Ok(
            InstructionForm::RegMemToReg {
                direction: (b0 / 2) % 2 == 1,
                wide: b0 % 2 == 1,
                mode: b1 / 64,
                reg: (b1 / 8) % 8,
                rm: b1 % 8,
            },
        )
    } else {
        Ok(InstructionForm::ImmediateToReg { wide: (b0 / 8) % 2 == 1, reg: b0 % 8 })
    }
}

/// The little-endian word at `at` and `at + 1`.
fn read_word(bytes: &Vec<u8>, at: usize) -> (r: u16)
    requires
        at + 1 < bytes@.len() <= usize::MAX,
    ensures
        r == le_word(bytes@[at as int], bytes@[at + 1]),
{
    let lo = bytes[at] as u16;
    let hi = bytes[at + 1] as u16;
    lo + 256 * hi
}

/// Decodes the instruction that starts at `pos`, returning it with the
/// position just past its last byte.
pub fn decode_instruction(bytes: &Vec<u8>, pos: usize) -> (r: Result<(DecodedInstruction, usize), DecodeError>)
    requires
        pos < bytes@.len(),
    ensures
        match decode_at(bytes@, pos as int) {
            Ok((instr, next)) => r == Ok::<(DecodedInstruction, usize), DecodeError>((instr, next as usize)),
            Err(e) => r == Err::<(DecodedInstruction, usize), DecodeError>(e),
        },
{
    let form = match classify(bytes, pos) {
        Ok(form) => form,
        Err(e) => return Err(e),
    };
    let remaining = bytes.len() - pos;
    match form {
        InstructionForm::RegMemToReg { direction, wide, mode, reg, rm } => {
            let len: usize = if mode == 0b00 && rm == 0b110 {
                4
            } else if mode == 0b01 {
                3
            } else if mode == 0b10 {
                4
            } else {
                2
            };
            if remaining < len {
                return Err(DecodeError::TruncatedInput { offset: pos });
            }
            let at = pos + 2;
            let memory = if mode == 0b11 {
                Operand::Register { index: rm, wide }
            } else if mode == 0b00 && rm == 0b110 {
                Operand::DirectAddress(read_word(bytes, at))
            } else if mode == 0b00 {
                Operand::EffectiveAddress { rm, displacement: None }
            } else if mode == 0b01 {
                Operand::EffectiveAddress { rm, displacement: Some(Value::Byte(bytes[at])) }
            } else {
                Operand::EffectiveAddress { rm, displacement: Some(Value::Word(read_word(bytes, at))) }
            };
            let register = Operand::Register { index: reg, wide };
            let instr = if direction {
                DecodedInstruction { mnemonic: Mnemonic::Mov, destination: register, source: memory }
            } else {
                DecodedInstruction { mnemonic: Mnemonic::Mov, destination: memory, source: register }
            };
            Ok((instr, pos + len))
        },
        InstructionForm::ImmediateToReg { wide, reg } => {
            let len: usize = if wide { 3 } else { 2 };
            if remaining < len {
                return Err(DecodeError::TruncatedInput { offset: pos });
            }
            let value = if wide {
                Value::Word(read_word(bytes, pos + 1))
            } else {
                Value::Byte(bytes[pos + 1])
            };
            let instr = DecodedInstruction {
                mnemonic: Mnemonic::Mov,
                destination: Operand::Register { index: reg, wide },
                source: Operand::Immediate(value),
            };
            Ok((instr, pos + len))
        },
    }
}

/// `r` with `prefix` put before the instructions of a success.
pub open spec fn after(prefix: Seq<DecodedInstruction>, r: Result<Seq<DecodedInstruction>, DecodeError>) -> Result<Seq<DecodedInstruction>, DecodeError> {
    match r {
        Ok(rest) => Ok(prefix + rest),
        Err(e) => Err(e),
    }
}

/// Decodes the whole byte sequence, stopping at the first failure.
pub fn decode_instructions(bytes: &Vec<u8>) -> (r: Result<Vec<DecodedInstruction>, DecodeError>)
    ensures
        match decode_from(bytes@, 0) {
            Ok(instrs) => r matches Ok(v) && v@ == instrs,
            Err(e) => r == Err::<Vec<DecodedInstruction>, DecodeError>(e),
        },
{
    let mut out: Vec<DecodedInstruction> = Vec::new();
    let mut pos: usize = 0;
    while pos < bytes.len()
        invariant
            pos <= bytes@.len(),
            decode_from(bytes@, 0) == after(out@, decode_from(bytes@, pos as int)),
        decreases bytes@.len() - pos,
    {
        proof {
            lemma_decode_at_advances(bytes@, pos as int);
        }
        match decode_instruction(bytes, pos) {
            Err(e) => {
                return Err(e);
            },
            Ok((instr, next)) => {
                proof {
                    assert(out@.push(instr) + decode_from(bytes@, next as int)->Ok_0 =~= out@ + (seq![instr] + decode_from(bytes@, next as int)->Ok_0));
                }
                out.push(instr);
                pos = next;
            },
        }
    }
    assert(out@ + Seq::<DecodedInstruction>::empty() =~= out@);
    Ok(out)
}

} // verus!
