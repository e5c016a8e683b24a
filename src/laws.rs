//! Laws of the decoder, stated over its spec model and proved.
use vstd::prelude::*;

use crate::decoder::{
    after, bit, decode_at, decode_from, displacement_len, field_low3, field_mode, is_immediate_opcode,
    is_reg_mem_opcode,
};
use crate::instruction::{DecodeError, DecodedInstruction};

verus! {

/// The opcode byte with its direction bit (bit 1) inverted.
pub open spec fn flip_direction(b: u8) -> u8 {
    if bit(b, 1) {
        (b - 2) as u8
    } else {
        (b + 2) as u8
    }
}

/// A two-byte register-to-register move (`100010dw`, then `mod = 11`)
/// decodes to exactly one instruction whose operands are both registers,
/// and inverting the direction bit swaps destination and source.
pub proof fn lemma_register_move_direction(b0: u8, b1: u8)
    requires
        is_reg_mem_opcode(b0),
        field_mode(b1) == 3,
    ensures
        ({
            let one = decode_from(seq![b0, b1], 0);
            let other = decode_from(seq![flip_direction(b0), b1], 0);
            &&& one is Ok && one->Ok_0.len() == 1
            &&& other is Ok && other->Ok_0.len() == 1
            &&& one->Ok_0[0].destination is Register
            &&& one->Ok_0[0].source is Register
            &&& other->Ok_0[0].destination == one->Ok_0[0].source
            &&& other->Ok_0[0].source == one->Ok_0[0].destination
        }),
{
    let s = seq![b0, b1];
    let t = seq![flip_direction(b0), b1];
    assert(decode_from(s, 2) == Ok::<Seq<DecodedInstruction>, DecodeError>(Seq::empty()));
    assert(decode_from(t, 2) == Ok::<Seq<DecodedInstruction>, DecodeError>(Seq::empty()));
    assert(seq![decode_at(s, 0)->Ok_0.0] + Seq::<DecodedInstruction>::empty() =~= seq![decode_at(s, 0)->Ok_0.0]);
    assert(seq![decode_at(t, 0)->Ok_0.0] + Seq::<DecodedInstruction>::empty() =~= seq![decode_at(t, 0)->Ok_0.0]);
}

/// A register/memory move with a memory operand (`mod` in `00`, `01`, `10`)
/// is two bytes long plus its displacement: none, or two for the direct
/// address of `mod = 00, rm = 110`; one for `mod = 01`; two for `mod = 10`.
pub proof fn lemma_memory_move_length(bytes: Seq<u8>, pos: int)
    requires
        0 <= pos,
        pos + 1 < bytes.len(),
        is_reg_mem_opcode(bytes[pos]),
        field_mode(bytes[pos + 1]) != 3,
        pos + 2 + displacement_len(field_mode(bytes[pos + 1]), field_low3(bytes[pos + 1])) <= bytes.len(),
    ensures
        decode_at(bytes, pos) matches Ok((_, next)) && next == pos + 2 + displacement_len(
            field_mode(bytes[pos + 1]),
            field_low3(bytes[pos + 1]),
        ),
{
}

/// Bytes appended after a whole number of instructions leave those
/// instructions as they are.
pub proof fn lemma_decode_extends(a: Seq<u8>, b: Seq<u8>, pos: int)
    requires
        0 <= pos <= a.len(),
        decode_from(a, pos) is Ok,
    ensures
        decode_from(a + b, pos) == after(decode_from(a, pos)->Ok_0, decode_from(a + b, a.len() as int)),
    decreases a.len() - pos,
{
    let ab = a + b;
    if pos == a.len() {
        match decode_from(ab, pos) {
            Ok(rest) => assert(Seq::<DecodedInstruction>::empty() + rest =~= rest),
            Err(_) => {},
        }
    } else {
        assert forall|k: int| pos <= k < a.len() implies ab[k] == a[k] by {}
        let (instr, next) = decode_at(a, pos)->Ok_0;
        assert(decode_at(ab, pos) == decode_at(a, pos));
        lemma_decode_extends(a, b, next);
        match decode_from(ab, a.len() as int) {
            Ok(rest) => {
                let tail = decode_from(a, next)->Ok_0;
                assert(seq![instr] + (tail + rest) =~= (seq![instr] + tail) + rest);
            },
            Err(_) => {},
        }
    }
}

/// A byte that matches no recognised opcode, found where an instruction
/// starts, stops the decode with `UnsupportedOpcode` at its own offset.
pub proof fn lemma_unsupported_opcode_offset(prefix: Seq<u8>, b: u8, rest: Seq<u8>)
    requires
        decode_from(prefix, 0) is Ok,
        !is_reg_mem_opcode(b),
        !is_immediate_opcode(b),
        prefix.len() < usize::MAX,
    ensures
        decode_from(prefix + (seq![b] + rest), 0) == Err::<Seq<DecodedInstruction>, DecodeError>(
            DecodeError::UnsupportedOpcode { offset: prefix.len() as usize, byte: b },
        ),
{
    lemma_decode_extends(prefix, seq![b] + rest, 0);
    let all = prefix + (seq![b] + rest);
    assert(all[prefix.len() as int] == b);
}

/// An instruction that needs a two-byte displacement but is followed by a
/// single byte stops the decode with `TruncatedInput` at its first byte.
pub proof fn lemma_missing_displacement_byte(prefix: Seq<u8>, b0: u8, b1: u8, lo: u8)
    requires
        decode_from(prefix, 0) is Ok,
        is_reg_mem_opcode(b0),
        displacement_len(field_mode(b1), field_low3(b1)) == 2,
        prefix.len() < usize::MAX,
    ensures
        decode_from(prefix + seq![b0, b1, lo], 0) == Err::<Seq<DecodedInstruction>, DecodeError>(
            DecodeError::TruncatedInput { offset: prefix.len() as usize },
        ),
{
    lemma_decode_extends(prefix, seq![b0, b1, lo], 0);
    let all = prefix + seq![b0, b1, lo];
    assert(all[prefix.len() as int] == b0);
    assert(all[prefix.len() as int + 1] == b1);
}

} // verus!
