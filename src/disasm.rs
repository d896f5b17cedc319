//! Text form of an instruction: `aaaa  mnemonic operand[,register]`, with
//! branch targets shown by label where one is known.
use std::collections::BTreeMap;

use vstd::prelude::*;

use crate::isa::{Bus, Instruction, Mode, Operation};

verus! {

broadcast use vstd::laws_cmp::group_laws_cmp;

/// Lower-case hexadecimal digit of `n` (0 to 15).
pub open spec fn hex_digit(n: int) -> Seq<char> {
    if n == 0 {
        "0"@
    } else if n == 1 {
        "1"@
    } else if n == 2 {
        "2"@
    } else if n == 3 {
        "3"@
    } else if n == 4 {
        "4"@
    } else if n == 5 {
        "5"@
    } else if n == 6 {
        "6"@
    } else if n == 7 {
        "7"@
    } else if n == 8 {
        "8"@
    } else if n == 9 {
        "9"@
    } else if n == 10 {
        "a"@
    } else if n == 11 {
        "b"@
    } else if n == 12 {
        "c"@
    } else if n == 13 {
        "d"@
    } else if n == 14 {
        "e"@
    } else {
        "f"@
    }
}

/// Two hexadecimal digits of a byte.
pub open spec fn hex_byte(b: u8) -> Seq<char> {
    hex_digit(b as int / 16) + hex_digit(b as int % 16)
}

/// Four hexadecimal digits of a word.
pub open spec fn hex_word(w: u16) -> Seq<char> {
    hex_byte((w / 256) as u8) + hex_byte((w % 256) as u8)
}

/// Operation name, padded; a jump is named by its condition.
pub open spec fn mnemonic(inst: Instruction) -> Seq<char> {
    match inst.op {
        Operation::Load => "ld   "@,
        Operation::And => "anda "@,
        Operation::Or => "ora  "@,
        Operation::Xor => "xora "@,
        Operation::Add => "adda "@,
        Operation::Sub => "suba "@,
        Operation::Store => "st   "@,
        Operation::Jump => match inst.mode {
            Mode::Acc_D_Far => "jmp y,"@,
            Mode::Acc_X_Gt => "bgt  "@,
            Mode::Acc_Y_D_Lt => "blt  "@,
            Mode::Acc_Y_X_Ne => "bne  "@,
            Mode::X_D_Eq => "beq  "@,
            Mode::Y_D_Ge => "bge  "@,
            Mode::Out_D_Le => "ble  "@,
            Mode::Out_Y_Xpp_Bra => "bra  "@,
        },
    }
}

/// RAM operand of an instruction.
pub open spec fn ram_operand(inst: Instruction, data: u8) -> Seq<char> {
    if inst.op == Operation::Jump {
        "["@ + hex_byte(data) + "]"@
    } else {
        match inst.mode {
            Mode::Acc_X_Gt => "[x]"@,
            Mode::Acc_Y_D_Lt => "[y,$"@ + hex_byte(data) + "]"@,
            Mode::Acc_Y_X_Ne => "[y,x]"@,
            Mode::Out_Y_Xpp_Bra => "[y,x++]"@,
            _ => "[$"@ + hex_byte(data) + "]"@,
        }
    }
}

/// Destination register written after the operand; none for jumps and for
/// stores that suppress it.
pub open spec fn register_suffix(inst: Instruction) -> Seq<char> {
    if inst.op == Operation::Jump {
        ""@
    } else {
        match inst.mode {
            Mode::X_D_Eq => ",x"@,
            Mode::Y_D_Ge => ",y"@,
            Mode::Out_D_Le | Mode::Out_Y_Xpp_Bra => if inst.op == Operation::Store {
                ""@
            } else {
                ",out"@
            },
            _ => if inst.op == Operation::Store {
                ""@
            } else {
                ",ac"@
            },
        }
    }
}

/// Target of a branch at `rom_addr` with low byte `data`: in the page of the
/// next instruction.
pub open spec fn branch_target(rom_addr: u16, data: u8) -> u16 {
    let hi = rom_addr as int / 256;
    let page = if rom_addr % 256 == 255 { (hi + 1) % 256 } else { hi };
    (page * 256 + data as int) as u16
}

/// Whether the operand is shown as a branch target.
pub open spec fn shows_target(inst: Instruction) -> bool {
    inst.op == Operation::Jump && inst.mode != Mode::Acc_D_Far && inst.bus == Bus::Data
}

/// Operand text: the bus source, or the branch target by label or address.
pub open spec fn operand_text(
    inst: Instruction,
    rom_addr: u16,
    data: u8,
    labels: Map<u16, String>,
) -> Seq<char> {
    if shows_target(inst) {
        let dest = branch_target(rom_addr, data);
        if labels.contains_key(dest) {
            "'"@ + labels[dest]@ + "'"@
        } else {
            "$"@ + hex_word(dest)
        }
    } else {
        match inst.bus {
            Bus::Data => "$"@ + hex_byte(data),
            Bus::Ram => ram_operand(inst, data),
            Bus::Acc => "ac"@,
            Bus::In => "in"@,
        }
    }
}

/// Full line of disassembly.
pub open spec fn disassembly(
    inst: Instruction,
    rom_addr: u16,
    data: u8,
    labels: Map<u16, String>,
) -> Seq<char> {
    hex_word(rom_addr) + "  "@ + mnemonic(inst) + operand_text(inst, rom_addr, data, labels)
        + register_suffix(inst)
}

fn append_hex_digit(s: &mut String, n: u8)
    requires
        n < 16,
    ensures
        final(s)@ == old(s)@ + hex_digit(n as int),
{
    let d = match n {
        0 => "0",
        1 => "1",
        2 => "2",
        3 => "3",
        4 => "4",
        5 => "5",
        6 => "6",
        7 => "7",
        8 => "8",
        9 => "9",
        10 => "a",
        11 => "b",
        12 => "c",
        13 => "d",
        14 => "e",
        _ => "f",
    };
    s.append(d);
}

fn append_hex_byte(s: &mut String, b: u8)
    ensures
        final(s)@ == old(s)@ + hex_byte(b),
{
    append_hex_digit(s, b / 16);
    append_hex_digit(s, b % 16);
    assert(s@ =~= old(s)@ + hex_byte(b));
}

fn append_hex_word(s: &mut String, w: u16)
    ensures
        final(s)@ == old(s)@ + hex_word(w),
{
    append_hex_byte(s, (w / 256) as u8);
    append_hex_byte(s, (w % 256) as u8);
    assert(s@ =~= old(s)@ + hex_word(w));
}

fn mnemonic_text(inst: Instruction) -> (r: &'static str)
    ensures
        r@ == mnemonic(inst),
{
    match inst.op {
        Operation::Load => "ld   ",
        Operation::And => "anda ",
        Operation::Or => "ora  ",
        Operation::Xor => "xora ",
        Operation::Add => "adda ",
        Operation::Sub => "suba ",
        Operation::Store => "st   ",
        Operation::Jump => match inst.mode {
            Mode::Acc_D_Far => "jmp y,",
            Mode::Acc_X_Gt => "bgt  ",
            Mode::Acc_Y_D_Lt => "blt  ",
            Mode::Acc_Y_X_Ne => "bne  ",
            Mode::X_D_Eq => "beq  ",
            Mode::Y_D_Ge => "bge  ",
            Mode::Out_D_Le => "ble  ",
            Mode::Out_Y_Xpp_Bra => "bra  ",
        },
    }
}

fn suffix_text(inst: Instruction) -> (r: &'static str)
    ensures
        r@ == register_suffix(inst),
{
    if inst.op == Operation::Jump {
        return "";
    }
    let store = inst.op == Operation::Store;
    match inst.mode {
        Mode::X_D_Eq => ",x",
        Mode::Y_D_Ge => ",y",
        Mode::Out_D_Le | Mode::Out_Y_Xpp_Bra => if store {
            ""
        } else {
            ",out"
        },
        _ => if store {
            ""
        } else {
            ",ac"
        },
    }
}

fn append_ram_operand(s: &mut String, inst: Instruction, data: u8)
    ensures
        final(s)@ == old(s)@ + ram_operand(inst, data),
{
    if inst.op == Operation::Jump {
        s.append("[");
        append_hex_byte(s, data);
        s.append("]");
    } else {
        match inst.mode {
            Mode::Acc_X_Gt => s.append("[x]"),
            Mode::Acc_Y_D_Lt => {
                s.append("[y,$");
                append_hex_byte(s, data);
                s.append("]");
            },
            Mode::Acc_Y_X_Ne => s.append("[y,x]"),
            Mode::Out_Y_Xpp_Bra => s.append("[y,x++]"),
            _ => {
                s.append("[$");
                append_hex_byte(s, data);
                s.append("]");
            },
        }
    }
    assert(s@ =~= old(s)@ + ram_operand(inst, data));
}

fn branch_target_of(rom_addr: u16, data: u8) -> (r: u16)
    ensures
        r == branch_target(rom_addr, data),
{
    let lo = rom_addr % 256;
    let mut hi = rom_addr / 256;
    if lo == 255 {
        hi = (hi + 1) % 256;
    }
    hi * 256 + data as u16
}

fn append_operand(
    s: &mut String,
    inst: Instruction,
    rom_addr: u16,
    data: u8,
    labels: &BTreeMap<u16, String>,
)
    ensures
        final(s)@ == old(s)@ + operand_text(inst, rom_addr, data, labels@),
{
    if inst.op == Operation::Jump && inst.mode != Mode::Acc_D_Far && inst.bus == Bus::Data {
        let dest = branch_target_of(rom_addr, data);
        match labels.get(&dest) {
            Some(name) => {
                s.append("'");
                s.append(name.as_str());
                s.append("'");
            },
            None => {
                s.append("$");
                append_hex_word(s, dest);
            },
        }
    } else {
        match inst.bus {
            Bus::Data => {
                s.append("$");
                append_hex_byte(s, data);
            },
            Bus::Ram => append_ram_operand(s, inst, data),
            Bus::Acc => s.append("ac"),
            Bus::In => s.append("in"),
        }
    }
    assert(s@ =~= old(s)@ + operand_text(inst, rom_addr, data, labels@));
}

impl Instruction {
    /// One line of disassembly for this instruction at `rom_addr` with data
    /// literal `data`; conditional branch targets are named from `labels`.
    pub fn disassemble(&self, rom_addr: u16, data: u8, labels: &BTreeMap<u16, String>) -> (r:
        String)
        ensures
            r@ == disassembly(*self, rom_addr, data, labels@),
    {
        let mut s = String::new();
        append_hex_word(&mut s, rom_addr);
        s.append("  ");
        s.append(mnemonic_text(*self));
        append_operand(&mut s, *self, rom_addr, data, labels);
        s.append(suffix_text(*self));
        assert(s@ =~= disassembly(*self, rom_addr, data, labels@));
        s
    }
}

} // verus!
