//! Rendering decoded instructions as assembly text.
use vstd::prelude::*;

use crate::decoder::{decode_from, decode_instructions, lemma_decoded_in_range};
use crate::instruction::{DecodeError, DecodedInstruction, Mnemonic, Operand, Value};
use crate::tables::{address_equation, get_register_name, get_rm_address_equation, register_name};

verus! {

/// How displacements and immediates are printed: as the raw unsigned byte
/// or word, or as the two's-complement signed value of the same width.
/// Direct addresses are always unsigned.
#[derive(Clone, Copy, Debug, PartialEq, Eq, Structural)]
pub enum NumberStyle {
    Unsigned,
    Signed,
}

pub open spec fn digit_char(d: nat) -> char {
    seq!['0', '1', '2', '3', '4', '5', '6', '7', '8', '9'][d as int]
}

/// Decimal digits of `n`, without leading zeros.
pub open spec fn decimal(n: nat) -> Seq<char>
    decreases n,
{
    if n < 10 {
        seq![digit_char(n)]
    } else {
        decimal(n / 10) + seq![digit_char(n % 10)]
    }
}

/// Decimal text of an integer, with a leading `-` when it is negative.
pub open spec fn integer_text(v: int) -> Seq<char> {
    if v < 0 {
        seq!['-'] + decimal((-v) as nat)
    } else {
        decimal(v as nat)
    }
}

/// The number a literal stands for in the given style.
pub open spec fn value_number(v: Value, style: NumberStyle) -> int {
    match v {
        Value::Byte(b) => if style == NumberStyle::Signed && b >= 128 { b - 256 } else { b as int },
        Value::Word(w) => if style == NumberStyle::Signed && w >= 32768 { w - 65536 } else { w as int },
    }
}

/// ` + n` for a non-negative displacement, ` - |n|` for a negative one.
pub open spec fn displacement_text(n: int) -> Seq<char> {
    if n < 0 {
        seq![' ', '-', ' '] + decimal((-n) as nat)
    } else {
        seq![' ', '+', ' '] + decimal(n as nat)
    }
}

pub open spec fn operand_text(op: Operand, style: NumberStyle) -> Seq<char> {
    match op {
        Operand::Register { index, wide } => register_name(index, wide),
        Operand::DirectAddress(a) => seq!['['] + decimal(a as nat) + seq![']'],
        Operand::EffectiveAddress { rm, displacement: None } => seq!['['] + address_equation(rm) + seq![']'],
        Operand::EffectiveAddress { rm, displacement: Some(d) } => seq!['['] + address_equation(rm)
            + displacement_text(value_number(d, style)) + seq![']'],
        Operand::Immediate(v) => integer_text(value_number(v, style)),
    }
}

pub open spec fn mnemonic_text(m: Mnemonic) -> Seq<char> {
    match m {
        Mnemonic::Mov => seq!['m', 'o', 'v'],
    }
}

/// `<mnemonic> <destination>, <source>`.
pub open spec fn instruction_text(instr: DecodedInstruction, style: NumberStyle) -> Seq<char> {
    mnemonic_text(instr.mnemonic) + seq![' '] + operand_text(instr.destination, style) + seq![',', ' ']
        + operand_text(instr.source, style)
}

/// Register and `rm` selectors are 3-bit fields.
pub open spec fn operand_in_range(op: Operand) -> bool {
    match op {
        Operand::Register { index, .. } => index < 8,
        Operand::EffectiveAddress { rm, .. } => rm < 8,
        _ => true,
    }
}

pub open spec fn instruction_in_range(instr: DecodedInstruction) -> bool {
    operand_in_range(instr.destination) && operand_in_range(instr.source)
}

fn digit_text(d: u32) -> (r: &'static str)
    requires
        d < 10,
    ensures
        r@ == seq![digit_char(d as nat)],
{
    let r: &'static str = match d {
        0 => "0",
        1 => "1",
        2 => "2",
        3 => "3",
        4 => "4",
        5 => "5",
        6 => "6",
        7 => "7",
        8 => "8",
        _ => "9",
    };
    proof {
        reveal_strlit("0");
        reveal_strlit("1");
        reveal_strlit("2");
        reveal_strlit("3");
        reveal_strlit("4");
        reveal_strlit("5");
        reveal_strlit("6");
        reveal_strlit("7");
        reveal_strlit("8");
        reveal_strlit("9");
    }
    assert(r@ =~= seq![digit_char(d as nat)]);
    r
}

fn append_literal(out: &mut String, s: &str)
    ensures
        final(out)@ == old(out)@ + s@,
{
    out.append(s);
}

fn append_decimal(out: &mut String, n: u32)
    ensures
        final(out)@ == old(out)@ + decimal(n as nat),
    decreases n,
{
    if n >= 10 {
        append_decimal(out, n / 10);
    }
    append_literal(out, digit_text(n % 10));
    assert(out@ =~= old(out)@ + decimal(n as nat));
}

/// Appends the integer a literal stands for: its sign, when negative, then
/// its magnitude.
fn append_value(out: &mut String, v: Value, style: NumberStyle)
    ensures
        final(out)@ == old(out)@ + integer_text(value_number(v, style)),
{
    let (negative, magnitude) = sign_and_magnitude(v, style);
    if negative {
        proof {
            reveal_strlit("-");
        }
        append_literal(out, "-");
    }
    append_decimal(out, magnitude);
    assert(out@ =~= old(out)@ + integer_text(value_number(v, style)));
}

/// The number a literal stands for, split into sign and magnitude.
fn sign_and_magnitude(v: Value, style: NumberStyle) -> (r: (bool, u32))
    ensures
        r.0 <==> value_number(v, style) < 0,
        r.1 as int == if r.0 { -value_number(v, style) } else { value_number(v, style) },
{
    let signed = match style {
        NumberStyle::Signed => true,
        NumberStyle::Unsigned => false,
    };
    match v {
        Value::Byte(b) => if signed && b >= 128 { (true, 256 - b as u32) } else { (false, b as u32) },
        Value::Word(w) => if signed && w >= 32768 { (true, 65536 - w as u32) } else { (false, w as u32) },
    }
}

fn append_operand(out: &mut String, op: Operand, style: NumberStyle)
    requires
        operand_in_range(op),
    ensures
        final(out)@ == old(out)@ + operand_text(op, style),
{
    proof {
        reveal_strlit("[");
        reveal_strlit("]");
        reveal_strlit(" + ");
        reveal_strlit(" - ");
    }
    match op {
        Operand::Register { index, wide } => {
            append_literal(out, get_register_name(index, wide));
        },
        Operand::DirectAddress(a) => {
            append_literal(out, "[");
            append_decimal(out, a as u32);
            append_literal(out, "]");
        },
        Operand::EffectiveAddress { rm, displacement } => {
            append_literal(out, "[");
            append_literal(out, get_rm_address_equation(rm));
            match displacement {
                None => {},
                Some(d) => {
                    let (negative, magnitude) = sign_and_magnitude(d, style);
                    if negative {
                        append_literal(out, " - ");
                    } else {
                        append_literal(out, " + ");
                    }
                    append_decimal(out, magnitude);
                },
            }
            append_literal(out, "]");
        },
        Operand::Immediate(v) => {
            append_value(out, v, style);
        },
    }
    assert(out@ =~= old(out)@ + operand_text(op, style));
}

/// One line of assembly text for a decoded instruction.
pub fn render(instr: &DecodedInstruction, style: NumberStyle) -> (r: String)
    requires
        instruction_in_range(*instr),
    ensures
        r@ == instruction_text(*instr, style),
{
    proof {
        reveal_strlit("mov");
        reveal_strlit(" ");
        reveal_strlit(", ");
    }
    let mut out = String::new();
    match instr.mnemonic {
        Mnemonic::Mov => append_literal(&mut out, "mov"),
    }
    append_literal(&mut out, " ");
    append_operand(&mut out, instr.destination, style);
    append_literal(&mut out, ", ");
    append_operand(&mut out, instr.source, style);
    assert(out@ =~= instruction_text(*instr, style));
    out
}

/// Decodes the whole byte sequence into lines of assembly text, one per
/// instruction, stopping at the first failure.
pub fn decode(input_bytes: &Vec<u8>, style: NumberStyle) -> (r: Result<Vec<String>, DecodeError>)
    ensures
        match decode_from(input_bytes@, 0) {
            Ok(instrs) => r matches Ok(lines) && lines@.len() == instrs.len() && forall|i: int|
                0 <= i < instrs.len() ==> #[trigger] lines@[i]@ == instruction_text(instrs[i], style),
            Err(e) => r == Err::<Vec<String>, DecodeError>(e),
        },
{
    let instrs = match decode_instructions(input_bytes) {
        Ok(instrs) => instrs,
        Err(e) => return Err(e),
    };
    proof {
        lemma_decoded_in_range(input_bytes@, 0);
    }
    let mut lines: Vec<String> = Vec::new();
    let mut i: usize = 0;
    while i < instrs.len()
        invariant
            i <= instrs@.len(),
            decode_from(input_bytes@, 0) == Ok::<Seq<DecodedInstruction>, DecodeError>(instrs@),
            forall|k: int| 0 <= k < instrs@.len() ==> instruction_in_range(#[trigger] instrs@[k]),
            lines@.len() == i,
            forall|k: int| 0 <= k < i ==> #[trigger] lines@[k]@ == instruction_text(instrs@[k], style),
        decreases instrs@.len() - i,
    {
        lines.push(render(&instrs[i], style));
        i = i + 1;
    }
    Ok(lines)
}

} // verus!
