//! The two lookup tables of the 8086 `mov` encodings: register names and
//! base-register address equations.
use vstd::prelude::*;

verus! {

/// Name of the register selected by a 3-bit field and the width bit
/// (8-bit names when `wide` is false, 16-bit names when it is true).
pub open spec fn register_name(index: u8, wide: bool) -> Seq<char> {
    if !wide {
        if index == 0 { seq!['a', 'l'] }
        else if index == 1 { seq!['c', 'l'] }
        else if index == 2 { seq!['d', 'l'] }
        else if index == 3 { seq!['b', 'l'] }
        else if index == 4 { seq!['a', 'h'] }
        else if index == 5 { seq!['c', 'h'] }
        else if index == 6 { seq!['d', 'h'] }
        else { seq!['b', 'h'] }
    } else {
        if index == 0 { seq!['a', 'x'] }
        else if index == 1 { seq!['c', 'x'] }
        else if index == 2 { seq!['d', 'x'] }
        else if index == 3 { seq!['b', 'x'] }
        else if index == 4 { seq!['s', 'p'] }
        else if index == 5 { seq!['b', 'p'] }
        else if index == 6 { seq!['s', 'i'] }
        else { seq!['d', 'i'] }
    }
}

/// The register-name table, indexed by a 3-bit selector and the width bit.
pub fn get_register_name(reg_or_rm_value: u8, wide: bool) -> (r: &'static str)
    requires
        reg_or_rm_value < 8,
    ensures
        r@ == register_name(reg_or_rm_value, wide),
{
    let r: &'static str = match (reg_or_rm_value, wide) {
        (0, false) => "al",
        (1, false) => "cl",
        (2, false) => "dl",
        (3, false) => "bl",
        (4, false) => "ah",
        (5, false) => "ch",
        (6, false) => "dh",
        (_, false) => "bh",
        (0, true) => "ax",
        (1, true) => "cx",
        (2, true) => "dx",
        (3, true) => "bx",
        (4, true) => "sp",
        (5, true) => "bp",
        (6, true) => "si",
        (_, true) => "di",
    };
    proof {
        reveal_strlit("al");
        reveal_strlit("cl");
        reveal_strlit("dl");
        reveal_strlit("bl");
        reveal_strlit("ah");
        reveal_strlit("ch");
        reveal_strlit("dh");
        reveal_strlit("bh");
        reveal_strlit("ax");
        reveal_strlit("cx");
        reveal_strlit("dx");
        reveal_strlit("bx");
        reveal_strlit("sp");
        reveal_strlit("bp");
        reveal_strlit("si");
        reveal_strlit("di");
    }
    assert(r@ =~= register_name(reg_or_rm_value, wide));
    r
}

/// Base-register equation selected by the `rm` field of a memory operand.
pub open spec fn address_equation(rm: u8) -> Seq<char> {
    if rm == 0 { seq!['b', 'x', ' ', '+', ' ', 's', 'i'] }
    else if rm == 1 { seq!['b', 'x', ' ', '+', ' ', 'd', 'i'] }
    else if rm == 2 { seq!['b', 'p', ' ', '+', ' ', 's', 'i'] }
    else if rm == 3 { seq!['b', 'p', ' ', '+', ' ', 'd', 'i'] }
    else if rm == 4 { seq!['s', 'i'] }
    else if rm == 5 { seq!['d', 'i'] }
    else if rm == 6 { seq!['b', 'p'] }
    else { seq!['b', 'x'] }
}

/// The address-equation table, indexed by the 3-bit `rm` field.
pub fn get_rm_address_equation(rm_val: u8) -> (r: &'static str)
    requires
        rm_val < 8,
    ensures
        r@ == address_equation(rm_val),
{
    let r: &'static str = match rm_val {
        0 => "bx + si",
        1 => "bx + di",
        2 => "bp + si",
        3 => "bp + di",
        4 => "si",
        5 => "di",
        6 => "bp",
        _ => "bx",
    };
    proof {
        reveal_strlit("bx + si");
        reveal_strlit("bx + di");
        reveal_strlit("bp + si");
        reveal_strlit("bp + di");
        reveal_strlit("si");
        reveal_strlit("di");
        reveal_strlit("bp");
        reveal_strlit("bx");
    }
    assert(r@ =~= address_equation(rm_val));
    r
}

} // verus!
