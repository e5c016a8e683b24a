use sim8086::decoder::{classify, decode_instruction, decode_instructions};
use sim8086::instruction::{DecodeError, DecodedInstruction, InstructionForm, Mnemonic, Operand, Value};
use sim8086::render::{decode, render, NumberStyle};
use sim8086::tables::{get_register_name, get_rm_address_equation};

fn lines(bytes: &[u8], style: NumberStyle) -> Vec<String> {
    decode(&bytes.to_vec(), style).unwrap()
}

fn text(bytes: &[u8]) -> String {
    lines(bytes, NumberStyle::Unsigned).join("\n")
}

#[test]
fn mov_simple_works() {
    let expected = "mov cx, bx
mov ch, ah
mov dx, bx
mov si, bx
mov bx, di
mov al, cl
mov ch, ch
mov bx, ax
mov bx, si
mov sp, di
mov bp, ax";

    let bytes = [
        0x89, 0xd9, 0x88, 0xe5, 0x89, 0xda, 0x89, 0xde, 0x89, 0xfb, 0x88, 0xc8, 0x88, 0xed, 0x89,
        0xc3, 0x89, 0xf3, 0x89, 0xfc, 0x89, 0xc5,
    ];

    assert_eq!(text(&bytes), expected);
}

#[test]
fn move_complex_works() {
    let expected = "mov si, bx
mov dh, al
mov cl, 12
mov ch, 244
mov cx, 12
mov cx, 65524
mov dx, 3948
mov dx, 61588
mov al, [bx + si]
mov bx, [bp + di]
mov dx, [bp + 0]
mov ah, [bx + si + 4]
mov al, [bx + si + 4999]
mov [bx + di], cx
mov [bp + si], cl
mov [bp + 0], ch";

    let bytes = [
        0x89, 0xde, 0x88, 0xc6, 0xb1, 0x0c, 0xb5, 0xf4, 0xb9, 0x0c, 0x00, 0xb9, 0xf4, 0xff, 0xba,
        0x6c, 0x0f, 0xba, 0x94, 0xf0, 0x8a, 0x00, 0x8b, 0x1b, 0x8b, 0x56, 0x00, 0x8a, 0x60, 0x04,
        0x8a, 0x80, 0x87, 0x13, 0x89, 0x09, 0x88, 0x0a, 0x88, 0x6e, 0x00,
    ];

    assert_eq!(text(&bytes), expected);
}

#[test]
fn signed_style_prints_negative_literals() {
    let bytes = [
        0xb5, 0xf4, 0xb9, 0xf4, 0xff, 0xba, 0x94, 0xf0, 0xba, 0x6c, 0x0f, 0x8a, 0x40, 0xdb, 0x8b,
        0x86, 0x00, 0x80,
    ];
    assert_eq!(
        lines(&bytes, NumberStyle::Signed),
        vec![
            "mov ch, -12",
            "mov cx, -12",
            "mov dx, -3948",
            "mov dx, 3948",
            "mov al, [bx + si - 37]",
            "mov ax, [bp - 32768]",
        ]
    );
    assert_eq!(
        lines(&bytes, NumberStyle::Unsigned),
        vec![
            "mov ch, 244",
            "mov cx, 65524",
            "mov dx, 61588",
            "mov dx, 3948",
            "mov al, [bx + si + 219]",
            "mov ax, [bp + 32768]",
        ]
    );
}

#[test]
fn direct_address_is_unsigned_in_both_styles() {
    let bytes = [0x8b, 0x1e, 0x82, 0xf0];
    assert_eq!(lines(&bytes, NumberStyle::Unsigned), vec!["mov bx, [61570]"]);
    assert_eq!(lines(&bytes, NumberStyle::Signed), vec!["mov bx, [61570]"]);
}

#[test]
fn register_pair_decodes_to_text() {
    assert_eq!(lines(&[0x89, 0xd9], NumberStyle::Unsigned), vec!["mov cx, bx"]);
}

#[test]
fn direction_bit_swaps_registers() {
    let one = decode_instructions(&vec![0x89, 0xd9]).unwrap();
    let other = decode_instructions(&vec![0x8b, 0xd9]).unwrap();
    assert_eq!(one.len(), 1);
    assert_eq!(other.len(), 1);
    assert_eq!(one[0].destination, Operand::Register { index: 1, wide: true });
    assert_eq!(one[0].source, Operand::Register { index: 3, wide: true });
    assert_eq!(other[0].destination, one[0].source);
    assert_eq!(other[0].source, one[0].destination);
    assert_eq!(text(&[0x8b, 0xd9]), "mov bx, cx");
    assert_eq!(text(&[0x88, 0xe5]), "mov ch, ah");
    assert_eq!(text(&[0x8a, 0xe5]), "mov ah, ch");
}

#[test]
fn immediate_byte_to_register() {
    assert_eq!(lines(&[0xb1, 0x0c], NumberStyle::Unsigned), vec!["mov cl, 12"]);
    assert_eq!(decode_instruction(&vec![0xb1, 0x0c], 0).unwrap().1, 2);
}

#[test]
fn immediate_word_to_register() {
    assert_eq!(lines(&[0xb9, 0x0c, 0x00], NumberStyle::Unsigned), vec!["mov cx, 12"]);
    assert_eq!(decode_instruction(&vec![0xb9, 0x0c, 0x00], 0).unwrap().1, 3);
}

#[test]
fn memory_without_displacement() {
    assert_eq!(lines(&[0x8a, 0x00], NumberStyle::Unsigned), vec!["mov al, [bx + si]"]);
    let (instr, next) = decode_instruction(&vec![0x8a, 0x00, 0x77], 0).unwrap();
    assert_eq!(next, 2);
    assert_eq!(instr.source, Operand::EffectiveAddress { rm: 0, displacement: None });
}

#[test]
fn direct_address_zero() {
    assert_eq!(lines(&[0x8b, 0x1e, 0x00, 0x00], NumberStyle::Unsigned), vec!["mov bx, [0]"]);
    let (instr, next) = decode_instruction(&vec![0x8b, 0x1e, 0x00, 0x00, 0x89], 0).unwrap();
    assert_eq!(next, 4);
    assert_eq!(instr.source, Operand::DirectAddress(0));
}

#[test]
fn memory_move_lengths_follow_mod() {
    let tail = [0x11, 0x22, 0x33, 0x44];
    let cases: [(u8, usize); 5] = [(0x00, 2), (0x06, 4), (0x46, 3), (0x40, 3), (0x87, 4)];
    for (modrm, len) in cases {
        let mut bytes = vec![0x8b, modrm];
        bytes.extend_from_slice(&tail);
        assert_eq!(decode_instruction(&bytes, 0).unwrap().1, len);
    }
    let (instr, _) = decode_instruction(&vec![0x8b, 0x87, 0x34, 0x12], 0).unwrap();
    assert_eq!(
        instr.source,
        Operand::EffectiveAddress { rm: 7, displacement: Some(Value::Word(0x1234)) }
    );
    assert_eq!(text(&[0x8b, 0x87, 0x34, 0x12]), "mov ax, [bx + 4660]");
}

#[test]
fn missing_displacement_byte_is_truncated() {
    assert_eq!(
        decode(&vec![0x8b, 0x86, 0x01], NumberStyle::Unsigned),
        Err(DecodeError::TruncatedInput { offset: 0 })
    );
    assert_eq!(
        decode(&vec![0x89, 0xd9, 0x8b, 0x86, 0x01], NumberStyle::Unsigned),
        Err(DecodeError::TruncatedInput { offset: 2 })
    );
    assert_eq!(
        decode_instructions(&vec![0x89, 0xd9, 0x8b, 0x1e, 0x01]),
        Err(DecodeError::TruncatedInput { offset: 2 })
    );
}

#[test]
fn other_truncations() {
    assert_eq!(decode_instructions(&vec![0x89]), Err(DecodeError::TruncatedInput { offset: 0 }));
    assert_eq!(decode_instructions(&vec![0xb1]), Err(DecodeError::TruncatedInput { offset: 0 }));
    assert_eq!(
        decode_instructions(&vec![0xb9, 0x0c]),
        Err(DecodeError::TruncatedInput { offset: 0 })
    );
    assert_eq!(
        decode_instructions(&vec![0x8a, 0x40]),
        Err(DecodeError::TruncatedInput { offset: 0 })
    );
}

#[test]
fn unsupported_opcode_reports_offset() {
    assert_eq!(
        decode(&vec![0x89, 0xd9, 0x00, 0x89, 0xd9], NumberStyle::Unsigned),
        Err(DecodeError::UnsupportedOpcode { offset: 2, byte: 0x00 })
    );
    assert_eq!(
        decode_instructions(&vec![0xb1, 0x0c, 0xb9, 0x0c, 0x00, 0xc6]),
        Err(DecodeError::UnsupportedOpcode { offset: 5, byte: 0xc6 })
    );
    assert_eq!(
        decode_instructions(&vec![0xff]),
        Err(DecodeError::UnsupportedOpcode { offset: 0, byte: 0xff })
    );
}

#[test]
fn empty_input_decodes_to_nothing() {
    assert_eq!(decode(&vec![], NumberStyle::Unsigned), Ok(vec![]));
    assert_eq!(decode_instructions(&vec![]), Ok(vec![]));
}

#[test]
fn classify_reads_fields() {
    assert_eq!(
        classify(&vec![0x89, 0xd9], 0),
        Ok(InstructionForm::RegMemToReg { direction: false, wide: true, mode: 3, reg: 3, rm: 1 })
    );
    assert_eq!(
        classify(&vec![0x00, 0xb9, 0x0c], 1),
        Ok(InstructionForm::ImmediateToReg { wide: true, reg: 1 })
    );
    assert_eq!(classify(&vec![0x8a], 0), Err(DecodeError::TruncatedInput { offset: 0 }));
    assert_eq!(
        classify(&vec![0x90], 0),
        Err(DecodeError::UnsupportedOpcode { offset: 0, byte: 0x90 })
    );
}

#[test]
fn render_builds_line() {
    let instr = DecodedInstruction {
        mnemonic: Mnemonic::Mov,
        destination: Operand::EffectiveAddress { rm: 6, displacement: Some(Value::Byte(0xfe)) },
        source: Operand::Immediate(Value::Word(7)),
    };
    assert_eq!(render(&instr, NumberStyle::Signed), "mov [bp - 2], 7");
    assert_eq!(render(&instr, NumberStyle::Unsigned), "mov [bp + 254], 7");
}

#[test]
fn register_table() {
    let narrow = ["al", "cl", "dl", "bl", "ah", "ch", "dh", "bh"];
    let wide = ["ax", "cx", "dx", "bx", "sp", "bp", "si", "di"];
    for i in 0..8u8 {
        assert_eq!(get_register_name(i, false), narrow[i as usize]);
        assert_eq!(get_register_name(i, true), wide[i as usize]);
    }
}

#[test]
fn address_equation_table() {
    let eqs = ["bx + si", "bx + di", "bp + si", "bp + di", "si", "di", "bp", "bx"];
    for i in 0..8u8 {
        assert_eq!(get_rm_address_equation(i), eqs[i as usize]);
    }
}
