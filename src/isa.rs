//! Instruction codec: an opcode byte split into operation, mode and bus fields.
use vstd::prelude::*;

verus! {

/// Primary operation, held in the three most significant bits of an opcode.
#[derive(Clone, Copy, Debug, PartialEq, Eq, Structural)]
pub enum Operation {
    Load,
    And,
    Or,
    Xor,
    Add,
    Sub,
    Store,
    Jump,
}

/// Addressing mode (for non-jump operations) or branch condition mask (for jumps),
/// held in the middle three bits of an opcode.
#[allow(non_camel_case_types)]
#[derive(Clone, Copy, Debug, PartialEq, Eq, Structural)]
pub enum Mode {
    Acc_D_Far,
    Acc_X_Gt,
    Acc_Y_D_Lt,
    Acc_Y_X_Ne,
    X_D_Eq,
    Y_D_Ge,
    Out_D_Le,
    Out_Y_Xpp_Bra,
}

/// Operand source feeding the ALU, held in the two least significant bits.
#[derive(Clone, Copy, Debug, PartialEq, Eq, Structural)]
pub enum Bus {
    Data,
    Ram,
    Acc,
    In,
}

/// A decoded opcode byte.
#[derive(Clone, Copy, Debug, PartialEq, Eq, Structural)]
pub struct Instruction {
    pub op: Operation,
    pub mode: Mode,
    pub bus: Bus,
}

/// Field value of an operation.
pub open spec fn op_code(op: Operation) -> u8 {
    match op {
        Operation::Load => 0,
        Operation::And => 1,
        Operation::Or => 2,
        Operation::Xor => 3,
        Operation::Add => 4,
        Operation::Sub => 5,
        Operation::Store => 6,
        Operation::Jump => 7,
    }
}

/// Field value of a mode; for jumps it is the branch condition mask.
pub open spec fn mode_code(mode: Mode) -> u8 {
    match mode {
        Mode::Acc_D_Far => 0,
        Mode::Acc_X_Gt => 1,
        Mode::Acc_Y_D_Lt => 2,
        Mode::Acc_Y_X_Ne => 3,
        Mode::X_D_Eq => 4,
        Mode::Y_D_Ge => 5,
        Mode::Out_D_Le => 6,
        Mode::Out_Y_Xpp_Bra => 7,
    }
}

/// Field value of a bus source.
pub open spec fn bus_code(bus: Bus) -> u8 {
    match bus {
        Bus::Data => 0,
        Bus::Ram => 1,
        Bus::Acc => 2,
        Bus::In => 3,
    }
}

/// The operation whose field value is `v` (taken modulo 8).
pub open spec fn op_of(v: u8) -> Operation {
    let f = v % 8;
    if f == 0 {
        Operation::Load
    } else if f == 1 {
        Operation::And
    } else if f == 2 {
        Operation::Or
    } else if f == 3 {
        Operation::Xor
    } else if f == 4 {
        Operation::Add
    } else if f == 5 {
        Operation::Sub
    } else if f == 6 {
        Operation::Store
    } else {
        Operation::Jump
    }
}

/// The mode whose field value is `v` (taken modulo 8).
pub open spec fn mode_of(v: u8) -> Mode {
    let f = v % 8;
    if f == 0 {
        Mode::Acc_D_Far
    } else if f == 1 {
        Mode::Acc_X_Gt
    } else if f == 2 {
        Mode::Acc_Y_D_Lt
    } else if f == 3 {
        Mode::Acc_Y_X_Ne
    } else if f == 4 {
        Mode::X_D_Eq
    } else if f == 5 {
        Mode::Y_D_Ge
    } else if f == 6 {
        Mode::Out_D_Le
    } else {
        Mode::Out_Y_Xpp_Bra
    }
}

/// The bus source whose field value is `v` (taken modulo 4).
pub open spec fn bus_of(v: u8) -> Bus {
    let f = v % 4;
    if f == 0 {
        Bus::Data
    } else if f == 1 {
        Bus::Ram
    } else if f == 2 {
        Bus::Acc
    } else {
        Bus::In
    }
}

/// Decoding of an opcode byte: bits 7..5 operation, 4..2 mode, 1..0 bus.
pub open spec fn decode_spec(byte: u8) -> Instruction {
    Instruction {
        op: op_of(byte / 32),
        mode: mode_of((byte / 4) % 8),
        bus: bus_of(byte % 4),
    }
}

/// Encoding of an instruction into its opcode byte.
pub open spec fn encode_spec(inst: Instruction) -> u8 {
    (op_code(inst.op) * 32 + mode_code(inst.mode) * 4 + bus_code(inst.bus)) as u8
}

impl Operation {
    pub fn from_bits(v: u8) -> (r: Operation)
        ensures
            r == op_of(v),
    {
        match v % 8 {
            0 => Operation::Load,
            1 => Operation::And,
            2 => Operation::Or,
            3 => Operation::Xor,
            4 => Operation::Add,
            5 => Operation::Sub,
            6 => Operation::Store,
            _ => Operation::Jump,
        }
    }

    pub fn bits(self) -> (r: u8)
        ensures
            r == op_code(self),
            r < 8,
    {
        match self {
            Operation::Load => 0,
            Operation::And => 1,
            Operation::Or => 2,
            Operation::Xor => 3,
            Operation::Add => 4,
            Operation::Sub => 5,
            Operation::Store => 6,
            Operation::Jump => 7,
        }
    }
}

impl Mode {
    pub fn from_bits(v: u8) -> (r: Mode)
        ensures
            r == mode_of(v),
    {
        match v % 8 {
            0 => Mode::Acc_D_Far,
            1 => Mode::Acc_X_Gt,
            2 => Mode::Acc_Y_D_Lt,
            3 => Mode::Acc_Y_X_Ne,
            4 => Mode::X_D_Eq,
            5 => Mode::Y_D_Ge,
            6 => Mode::Out_D_Le,
            _ => Mode::Out_Y_Xpp_Bra,
        }
    }

    pub fn bits(self) -> (r: u8)
        ensures
            r == mode_code(self),
            r < 8,
    {
        match self {
            Mode::Acc_D_Far => 0,
            Mode::Acc_X_Gt => 1,
            Mode::Acc_Y_D_Lt => 2,
            Mode::Acc_Y_X_Ne => 3,
            Mode::X_D_Eq => 4,
            Mode::Y_D_Ge => 5,
            Mode::Out_D_Le => 6,
            Mode::Out_Y_Xpp_Bra => 7,
        }
    }
}

impl Bus {
    pub fn from_bits(v: u8) -> (r: Bus)
        ensures
            r == bus_of(v),
    {
        match v % 4 {
            0 => Bus::Data,
            1 => Bus::Ram,
            2 => Bus::Acc,
            _ => Bus::In,
        }
    }

    pub fn bits(self) -> (r: u8)
        ensures
            r == bus_code(self),
            r < 4,
    {
        match self {
            Bus::Data => 0,
            Bus::Ram => 1,
            Bus::Acc => 2,
            Bus::In => 3,
        }
    }
}

impl Instruction {
    /// Splits an opcode byte into its three fields. Every byte decodes.
    pub fn decode(byte: u8) -> (r: Instruction)
        ensures
            r == decode_spec(byte),
    {
        assert((byte >> 5u8) == byte / 32) by (bit_vector);
        assert((byte >> 2u8) & 7 == (byte / 4) % 8) by (bit_vector);
        assert(byte & 3 == byte % 4) by (bit_vector);
        Instruction {
            op: Operation::from_bits(byte >> 5u8),
            mode: Mode::from_bits((byte >> 2u8) & 7),
            bus: Bus::from_bits(byte & 3),
        }
    }

    /// Packs the three fields back into an opcode byte.
    pub fn encode(&self) -> (r: u8)
        ensures
            r == encode_spec(*self),
    {
        self.op.bits() * 32 + self.mode.bits() * 4 + self.bus.bits()
    }
}

/// Decoding is total and injective: every byte names exactly one of the
/// 8 x 8 x 4 field combinations, and encoding that combination gives the byte back.
pub proof fn lemma_decode_total(byte: u8)
    ensures
        encode_spec(decode_spec(byte)) == byte,
        op_code(decode_spec(byte).op) < 8,
        mode_code(decode_spec(byte).mode) < 8,
        bus_code(decode_spec(byte).bus) < 4,
{
}

/// Every one of the 8 x 8 x 4 field combinations is the decoding of its encoding.
pub proof fn lemma_encode_decode(inst: Instruction)
    ensures
        encode_spec(inst) < 256,
        decode_spec(encode_spec(inst)) == inst,
{
}

} // verus!
