//! Execution engine: register file, memories, one instruction per cycle with a
//! one-stage fetch pipeline, and reversible cycle effects.
use itertools::Itertools;
use vstd::prelude::*;

use crate::isa::{decode_spec, mode_code, Bus, Instruction, Mode, Operation};

verus! {

pub const RAM_SIZE: usize = 32768;

pub const ROM_SIZE: usize = 65536;

// Bits of the input byte, one per controller button; a bit reads 0 while
// its button is pressed.
pub const BUTTON_RIGHT: u8 = 0x01;

pub const BUTTON_LEFT: u8 = 0x02;

pub const BUTTON_DOWN: u8 = 0x04;

pub const BUTTON_UP: u8 = 0x08;

pub const BUTTON_START: u8 = 0x10;

pub const BUTTON_SELECT: u8 = 0x20;

pub const BUTTON_B: u8 = 0x40;

pub const BUTTON_A: u8 = 0x80;

/// Raw opcode byte as held in the instruction register and in ROM.
#[derive(Clone, Copy, Debug, PartialEq, Eq, Structural)]
pub struct OpCode(pub u8);

#[derive(Clone, Copy, Debug, PartialEq, Eq, Structural)]
pub struct RegisterFile {
    /// Program counter.
    pub pc: u16,
    /// Instruction register: the opcode fetched on the previous cycle.
    pub ir: OpCode,
    /// Data register: the literal paired with `ir` in ROM.
    pub d: u8,
    /// Accumulator.
    pub ac: u8,
    /// Address register X.
    pub x: u8,
    /// Address register Y.
    pub y: u8,
    /// Output register.
    pub out: u8,
    /// Floating bus: an unspecified value refreshed every cycle.
    pub undef: u8,
}

/// One ROM word: an opcode and its data literal.
#[derive(Clone, Copy, Debug, PartialEq, Eq, Structural)]
pub struct RomWord {
    pub inst: OpCode,
    pub data: u8,
}

/// Register that receives the ALU result of a cycle.
#[derive(Clone, Copy, Debug, PartialEq, Eq, Structural)]
pub enum ResultDest {
    AC,
    X,
    Y,
    OUT,
    Nowhere,
}

/// Memory access reported by the mutating engine.
#[derive(Clone, Copy, Debug, PartialEq, Eq, Structural)]
pub enum MemOperation {
    Read { val: u8 },
    Write { prev_val: u8, new_val: u8 },
}

#[derive(Clone, Copy, Debug, PartialEq, Eq, Structural)]
pub struct MemAccess {
    pub addr: u16,
    pub op: MemOperation,
}

#[derive(Clone, Copy, Debug, PartialEq, Eq, Structural)]
pub struct CycleInfo {
    pub mem_access: Option<MemAccess>,
}

/// Memory event of a cycle effect. A read changes nothing but is kept for tooling.
#[derive(Clone, Copy, Debug, PartialEq, Eq, Structural)]
pub enum MemDiffOp {
    Read,
    Write(u8),
}

#[derive(Clone, Copy, Debug, PartialEq, Eq, Structural)]
pub struct MemDiff {
    pub addr: u16,
    pub op: MemDiffOp,
}

/// Effect of one cycle: the register file after it, the program counter before
/// it (the queued address), and at most one memory event.
#[derive(Clone, Copy, Debug, PartialEq, Eq, Structural)]
pub struct CycleDiff {
    pub new_reg: RegisterFile,
    pub queued_pc: u16,
    pub mem: Option<MemDiff>,
}

/// RAM index that a 16-bit address selects: its low 15 bits.
pub open spec fn ram_index(addr: u16) -> int {
    addr as int % 0x8000
}

/// 16-bit value from a high and a low byte.
pub open spec fn join(hi: u8, lo: u8) -> u16 {
    (hi as int * 256 + lo as int) as u16
}

/// Destination selected by an addressing mode.
pub open spec fn dest_of(mode: Mode) -> ResultDest {
    match mode {
        Mode::Acc_D_Far | Mode::Acc_X_Gt | Mode::Acc_Y_D_Lt | Mode::Acc_Y_X_Ne => ResultDest::AC,
        Mode::X_D_Eq => ResultDest::X,
        Mode::Y_D_Ge => ResultDest::Y,
        Mode::Out_D_Le | Mode::Out_Y_Xpp_Bra => ResultDest::OUT,
    }
}

/// A store suppresses an accumulator or output destination; X and Y stay.
pub open spec fn masked(dest: ResultDest, write: bool) -> ResultDest {
    if write && (dest == ResultDest::AC || dest == ResultDest::OUT) {
        ResultDest::Nowhere
    } else {
        dest
    }
}

/// Register that an instruction writes its ALU result to.
pub open spec fn target_of(inst: Instruction) -> ResultDest {
    if inst.op == Operation::Jump {
        ResultDest::Nowhere
    } else {
        masked(dest_of(inst.mode), inst.op == Operation::Store)
    }
}

/// Whether an instruction post-increments X.
pub open spec fn increments_x(inst: Instruction) -> bool {
    inst.op != Operation::Jump && inst.mode == Mode::Out_Y_Xpp_Bra
}

/// RAM address an instruction uses.
pub open spec fn address_of(inst: Instruction, reg: RegisterFile) -> u16 {
    if inst.op == Operation::Jump {
        reg.d as u16
    } else {
        match inst.mode {
            Mode::Acc_X_Gt => reg.x as u16,
            Mode::Acc_Y_D_Lt => join(reg.y, reg.d),
            Mode::Acc_Y_X_Ne | Mode::Out_Y_Xpp_Bra => join(reg.y, reg.x),
            _ => reg.d as u16,
        }
    }
}

/// Value on the data bus: the ALU operand, and the byte a store writes.
pub open spec fn bus_value(inst: Instruction, reg: RegisterFile, ram: Seq<u8>, input: u8) -> u8 {
    match inst.bus {
        Bus::Data => reg.d,
        Bus::Ram => if inst.op == Operation::Store {
            reg.undef
        } else {
            ram[ram_index(address_of(inst, reg))]
        },
        Bus::Acc => reg.ac,
        Bus::In => input,
    }
}

/// ALU result; sums and differences wrap modulo 256.
pub open spec fn alu(op: Operation, ac: u8, b: u8) -> u8 {
    match op {
        Operation::Load => b,
        Operation::And => ac & b,
        Operation::Or => ac | b,
        Operation::Xor => ac ^ b,
        Operation::Add => ((ac + b) % 256) as u8,
        Operation::Sub => ((ac + 256 - b) % 256) as u8,
        Operation::Store => ac,
        Operation::Jump => ((256 - ac) % 256) as u8,
    }
}

/// Whether a conditional branch with condition mask `mask` is taken.
/// Bit `sign + 2 * is_zero` of the mask selects: bit 0 for a positive
/// accumulator, bit 1 for a negative one, bit 2 for zero.
pub open spec fn branch_taken(mask: u8, ac: u8) -> bool {
    if ac == 0 {
        (mask / 4) % 2 == 1
    } else if ac >= 128 {
        (mask / 2) % 2 == 1
    } else {
        mask % 2 == 1
    }
}

/// Program counter after executing `inst` with bus value `b`.
pub open spec fn next_pc(inst: Instruction, reg: RegisterFile, b: u8) -> u16 {
    if inst.op == Operation::Jump && mode_code(inst.mode) == 0 {
        join(reg.y, b)
    } else if inst.op == Operation::Jump && branch_taken(mode_code(inst.mode), reg.ac) {
        join((reg.pc / 256) as u8, b)
    } else {
        ((reg.pc + 1) % 65536) as u16
    }
}

/// Register file after one cycle, with `floating` as the new floating-bus value.
pub open spec fn cycle_regs(
    reg: RegisterFile,
    ram: Seq<u8>,
    rom: Seq<RomWord>,
    input: u8,
    floating: u8,
) -> RegisterFile {
    let inst = decode_spec(reg.ir.0);
    let b = bus_value(inst, reg, ram, input);
    let r = alu(inst.op, reg.ac, b);
    let t = target_of(inst);
    let word = rom[reg.pc as int];
    RegisterFile {
        pc: next_pc(inst, reg, b),
        ir: word.inst,
        d: word.data,
        ac: if t == ResultDest::AC { r } else { reg.ac },
        x: if increments_x(inst) {
            ((reg.x + 1) % 256) as u8
        } else if t == ResultDest::X {
            r
        } else {
            reg.x
        },
        y: if t == ResultDest::Y { r } else { reg.y },
        out: if t == ResultDest::OUT { r } else { reg.out },
        undef: floating,
    }
}

/// Memory event of one cycle: a store writes the bus value, a RAM-sourced
/// load reads, anything else touches no memory.
pub open spec fn cycle_mem(reg: RegisterFile, ram: Seq<u8>, input: u8) -> Option<MemDiff> {
    let inst = decode_spec(reg.ir.0);
    let addr = address_of(inst, reg);
    if inst.op == Operation::Store {
        Some(MemDiff { addr, op: MemDiffOp::Write(bus_value(inst, reg, ram, input)) })
    } else if inst.bus == Bus::Ram {
        Some(MemDiff { addr, op: MemDiffOp::Read })
    } else {
        None
    }
}

/// Effect of one cycle from the given registers and memories.
pub open spec fn cycle_spec(
    reg: RegisterFile,
    ram: Seq<u8>,
    rom: Seq<RomWord>,
    input: u8,
    floating: u8,
) -> CycleDiff {
    CycleDiff {
        new_reg: cycle_regs(reg, ram, rom, input, floating),
        queued_pc: reg.pc,
        mem: cycle_mem(reg, ram, input),
    }
}

proof fn lemma_join_bits(hi: u8, lo: u8)
    ensures
        ((hi as u16) << 8u16) | (lo as u16) == join(hi, lo),
{
    assert(((hi as u16) << 8u16) | (lo as u16) == (hi as u16) * 256 + (lo as u16)) by (bit_vector);
}

proof fn lemma_ram_mask(addr: u16)
    ensures
        (addr & 0x7fff) as int == ram_index(addr),
{
    assert(addr & 0x7fff == addr % 0x8000) by (bit_vector);
}

proof fn lemma_page_bits(pc: u16, b: u8)
    ensures
        (pc & 0xff00) | (b as u16) == join((pc / 256) as u8, b),
{
    assert((pc & 0xff00) | (b as u16) == (pc / 256) * 256 + (b as u16)) by (bit_vector);
}

proof fn lemma_condition_bits(mask: u8, ac: u8, cond: u8)
    requires
        cond == (ac >> 7u8) + (if ac == 0 { 2u8 } else { 0u8 }),
    ensures
        cond < 8,
        (mask & (1u8 << cond) != 0) == branch_taken(mask, ac),
{
    assert(cond < 8 && ((mask & (1u8 << cond) != 0) == (if ac == 0 {
        (mask / 4) % 2 == 1
    } else if ac >= 128 {
        (mask / 2) % 2 == 1
    } else {
        mask % 2 == 1
    }))) by (bit_vector)
        requires
            cond == (ac >> 7u8) + (if ac == 0 { 2u8 } else { 0u8 }),
    ;
}

impl ResultDest {
    /// Suppresses an accumulator or output destination when the cycle writes RAM.
    pub fn mask_write(self, write: bool) -> (r: Self)
        ensures
            r == masked(self, write),
    {
        if !write {
            return self;
        }
        match self {
            ResultDest::AC => ResultDest::Nowhere,
            ResultDest::OUT => ResultDest::Nowhere,
            ResultDest::X => ResultDest::X,
            ResultDest::Y => ResultDest::Y,
            ResultDest::Nowhere => ResultDest::Nowhere,
        }
    }
}

/// RAM address that an instruction uses.
fn operand_address(inst: Instruction, reg: &RegisterFile) -> (r: u16)
    ensures
        r == address_of(inst, *reg),
{
    let mut lo = reg.d;
    let mut hi: u8 = 0;
    if inst.op != Operation::Jump {
        match inst.mode {
            Mode::Acc_X_Gt => lo = reg.x,
            Mode::Acc_Y_D_Lt => hi = reg.y,
            Mode::Acc_Y_X_Ne | Mode::Out_Y_Xpp_Bra => {
                lo = reg.x;
                hi = reg.y;
            },
            _ => {},
        }
    }
    proof {
        lemma_join_bits(hi, lo);
    }
    ((hi as u16) << 8u16) | (lo as u16)
}

/// Register that receives the ALU result of an instruction.
fn result_target(inst: Instruction) -> (r: ResultDest)
    ensures
        r == target_of(inst),
{
    if inst.op == Operation::Jump {
        return ResultDest::Nowhere;
    }
    let to = match inst.mode {
        Mode::Acc_D_Far | Mode::Acc_X_Gt | Mode::Acc_Y_D_Lt | Mode::Acc_Y_X_Ne => ResultDest::AC,
        Mode::X_D_Eq => ResultDest::X,
        Mode::Y_D_Ge => ResultDest::Y,
        Mode::Out_D_Le | Mode::Out_Y_Xpp_Bra => ResultDest::OUT,
    };
    to.mask_write(inst.op == Operation::Store)
}

/// Value the bus carries for an instruction at address `addr`.
fn bus_operand(inst: Instruction, reg: &RegisterFile, ram: &Vec<u8>, addr: u16, input: u8) -> (r:
    u8)
    requires
        ram@.len() == RAM_SIZE,
        addr == address_of(inst, *reg),
    ensures
        r == bus_value(inst, *reg, ram@, input),
{
    match inst.bus {
        Bus::Data => reg.d,
        Bus::Ram => {
            if inst.op == Operation::Store {
                reg.undef
            } else {
                proof {
                    lemma_ram_mask(addr);
                }
                ram[(addr & 0x7fff) as usize]
            }
        },
        Bus::Acc => reg.ac,
        Bus::In => input,
    }
}

/// ALU: combines the accumulator with the bus value.
fn alu_result(op: Operation, ac: u8, b: u8) -> (r: u8)
    ensures
        r == alu(op, ac, b),
{
    match op {
        Operation::Load => b,
        Operation::And => ac & b,
        Operation::Or => ac | b,
        Operation::Xor => ac ^ b,
        Operation::Add => ac.wrapping_add(b),
        Operation::Sub => ac.wrapping_sub(b),
        Operation::Store => ac,
        // Never written to a register; kept for symmetry with the hardware.
        Operation::Jump => 0u8.wrapping_sub(ac),
    }
}

/// Program counter after an instruction with bus value `b`.
fn following_pc(inst: Instruction, reg: &RegisterFile, b: u8) -> (r: u16)
    ensures
        r == next_pc(inst, *reg, b),
{
    let mut pc = reg.pc.wrapping_add(1);
    if inst.op == Operation::Jump {
        let mode_bits = inst.mode.bits();
        if mode_bits != 0 {
            let ac = reg.ac;
            let sign = ac >> 7u8;
            assert(sign <= 1) by (bit_vector)
                requires
                    sign == ac >> 7u8,
            ;
            let cond: u8 = sign + if reg.ac == 0 { 2u8 } else { 0u8 };
            proof {
                lemma_condition_bits(mode_bits, reg.ac, cond);
            }
            if mode_bits & (1u8 << cond) != 0 {
                proof {
                    lemma_page_bits(reg.pc, b);
                }
                pc = (reg.pc & 0xff00) | (b as u16);
            }
        } else {
            proof {
                lemma_join_bits(reg.y, b);
            }
            pc = ((reg.y as u16) << 8u16) | (b as u16);
        }
    }
    pc
}

/// Computes the effect of one cycle without changing anything: the
/// instruction held in `ir` executes while ROM at `pc` is fetched into `ir`/`d`.
pub fn cycle(reg: &RegisterFile, ram: &Vec<u8>, rom: &[RomWord], input: u8, floating: u8) -> (r:
    CycleDiff)
    requires
        ram@.len() == RAM_SIZE,
        rom@.len() == ROM_SIZE,
    ensures
        r == cycle_spec(*reg, ram@, rom@, input, floating),
{
    let word = rom[reg.pc as usize];
    let inst = Instruction::decode(reg.ir.0);
    let write = inst.op == Operation::Store;

    let addr = operand_address(inst, reg);
    let to = result_target(inst);
    let b = bus_operand(inst, reg, ram, addr, input);
    let alu = alu_result(inst.op, reg.ac, b);

    let mut new_reg = *reg;
    new_reg.undef = floating;
    new_reg.ir = word.inst;
    new_reg.d = word.data;
    match to {
        ResultDest::AC => new_reg.ac = alu,
        ResultDest::X => new_reg.x = alu,
        ResultDest::Y => new_reg.y = alu,
        ResultDest::OUT => new_reg.out = alu,
        ResultDest::Nowhere => {},
    }
    if inst.op != Operation::Jump && inst.mode == Mode::Out_Y_Xpp_Bra {
        new_reg.x = reg.x.wrapping_add(1);
    }
    new_reg.pc = following_pc(inst, reg, b);

    let mem = if write {
        Some(MemDiff { addr, op: MemDiffOp::Write(b) })
    } else if inst.bus == Bus::Ram {
        Some(MemDiff { addr, op: MemDiffOp::Read })
    } else {
        None
    };

    CycleDiff { new_reg, queued_pc: reg.pc, mem }
}

/// Relies on rand::random: draws a value from the thread-local generator.
/// Nothing is promised of the value.
pub assume_specification<T>[ rand::random::<T> ]() -> (r: T)
    where
        rand::distributions::Standard: rand::distributions::Distribution<T>,
;

/// Mathematical state of the engine: RAM contents, registers, queued address.
pub struct CpuView {
    pub ram: Seq<u8>,
    pub reg: RegisterFile,
    pub queued_pc: u16,
}

/// Registers after a hard reset: program counter 0, everything else as drawn.
/// The instruction register keeps its drawn value, so the first cycle after a
/// hard reset executes that instruction while it fetches ROM word 0.
pub open spec fn power_on_regs(reg: RegisterFile) -> RegisterFile {
    RegisterFile { pc: 0, ..reg }
}

/// Registers after a soft reset: program counter 0 and ROM word 0 held for execution.
pub open spec fn reset_regs(reg: RegisterFile, word: RomWord) -> RegisterFile {
    RegisterFile { pc: 0, ir: word.inst, d: word.data, ..reg }
}

/// Applying an effect: its registers and queued address replace the current
/// ones and a write event is performed. The second component is the inverse
/// effect, holding the replaced registers and the overwritten byte.
pub open spec fn apply_spec(s: CpuView, d: CycleDiff) -> (CpuView, CycleDiff) {
    match d.mem {
        Some(MemDiff { addr, op: MemDiffOp::Write(v) }) => (
            CpuView { ram: s.ram.update(ram_index(addr), v), reg: d.new_reg, queued_pc: d.queued_pc },
            CycleDiff {
                new_reg: s.reg,
                queued_pc: s.queued_pc,
                mem: Some(MemDiff { addr, op: MemDiffOp::Write(s.ram[ram_index(addr)]) }),
            },
        ),
        _ => (
            CpuView { ram: s.ram, reg: d.new_reg, queued_pc: d.queued_pc },
            CycleDiff { new_reg: s.reg, queued_pc: s.queued_pc, mem: d.mem },
        ),
    }
}

/// The memory access an effect reports, read against the RAM before it.
pub open spec fn access_of(d: CycleDiff, ram: Seq<u8>) -> CycleInfo {
    CycleInfo {
        mem_access: match d.mem {
            None => None,
            Some(MemDiff { addr, op: MemDiffOp::Read }) => Some(
                MemAccess { addr, op: MemOperation::Read { val: ram[ram_index(addr)] } },
            ),
            Some(MemDiff { addr, op: MemDiffOp::Write(v) }) => Some(
                MemAccess {
                    addr,
                    op: MemOperation::Write { prev_val: ram[ram_index(addr)], new_val: v },
                },
            ),
        },
    }
}

impl RegisterFile {
    /// A register file of random contents, as after power-on.
    pub fn new_random() -> Self {
        RegisterFile {
            pc: rand::random::<u16>(),
            ir: OpCode(rand::random::<u8>()),
            d: rand::random::<u8>(),
            ac: rand::random::<u8>(),
            x: rand::random::<u8>(),
            y: rand::random::<u8>(),
            out: rand::random::<u8>(),
            undef: rand::random::<u8>(),
        }
    }
}

/// RAM of random contents.
fn random_ram() -> (r: Vec<u8>)
    ensures
        r@.len() == RAM_SIZE,
{
    let mut ram: Vec<u8> = Vec::with_capacity(RAM_SIZE);
    let mut i: usize = 0;
    while i < RAM_SIZE
        invariant
            i <= RAM_SIZE,
            ram@.len() == i,
        decreases RAM_SIZE - i,
    {
        ram.push(rand::random::<u8>());
        i += 1;
    }
    ram
}

impl CycleDiff {
    /// The memory access this effect makes, read against the RAM before it.
    pub fn access(&self, ram: &Vec<u8>) -> (r: CycleInfo)
        requires
            ram@.len() == RAM_SIZE,
        ensures
            r == access_of(*self, ram@),
    {
        let mem_access = match self.mem {
            None => None,
            Some(m) => {
                proof {
                    lemma_ram_mask(m.addr);
                }
                let prev = ram[(m.addr & 0x7fff) as usize];
                match m.op {
                    MemDiffOp::Read => Some(MemAccess { addr: m.addr, op: MemOperation::Read { val: prev } }),
                    MemDiffOp::Write(v) => Some(
                        MemAccess {
                            addr: m.addr,
                            op: MemOperation::Write { prev_val: prev, new_val: v },
                        },
                    ),
                }
            },
        };
        CycleInfo { mem_access }
    }
}

/// Engine state whose cycles are computed as effects and applied separately.
pub struct CpuState {
    pub ram: Vec<u8>,
    pub reg: RegisterFile,
    pub queued_pc: u16,
}

impl View for CpuState {
    type V = CpuView;

    open spec fn view(&self) -> CpuView {
        CpuView { ram: self.ram@, reg: self.reg, queued_pc: self.queued_pc }
    }
}

impl CpuState {
    pub open spec fn wf(&self) -> bool {
        self.ram@.len() == RAM_SIZE
    }

    /// Power-on state: random RAM and registers, program counter and queued
    /// address 0. ROM is not read: the first cycle executes whatever the
    /// instruction register was drawn as, and fetches ROM word 0.
    pub fn hard_reset(_rom: &[RomWord]) -> (r: Self)
        ensures
            r.wf(),
            r.reg.pc == 0,
            r.queued_pc == 0,
    {
        Self::with_contents(RegisterFile::new_random(), random_ram())
    }

    /// Power-on state with the given RAM and registers; the deterministic
    /// counterpart of `hard_reset`.
    pub fn with_contents(reg: RegisterFile, ram: Vec<u8>) -> (r: Self)
        requires
            ram@.len() == RAM_SIZE,
        ensures
            r.wf(),
            r@ == (CpuView { ram: ram@, reg: power_on_regs(reg), queued_pc: 0 }),
    {
        let mut state = CpuState { ram, reg, queued_pc: 0 };
        state.reg.pc = 0;
        state
    }

    /// Resets the program counter and loads ROM word 0 for execution; RAM and
    /// the other registers are kept.
    pub fn soft_reset(&mut self, rom: &[RomWord])
        requires
            rom@.len() > 0,
        ensures
            final(self)@ == (CpuView {
                ram: old(self)@.ram,
                reg: reset_regs(old(self).reg, rom@[0]),
                queued_pc: 0,
            }),
    {
        self.reg.pc = 0;
        self.queued_pc = 0;
        let word = rom[0];
        self.reg.ir = word.inst;
        self.reg.d = word.data;
    }

    /// Applies an effect and returns the effect that undoes it.
    pub fn apply_diff(&mut self, diff: CycleDiff) -> (r: CycleDiff)
        requires
            old(self).wf(),
        ensures
            final(self).wf(),
            (final(self)@, r) == apply_spec(old(self)@, diff),
    {
        let prev_reg = self.reg;
        let prev_queued = self.queued_pc;
        self.reg = diff.new_reg;
        self.queued_pc = diff.queued_pc;
        let mem = match diff.mem {
            Some(mem) => match mem.op {
                MemDiffOp::Read => Some(mem),
                MemDiffOp::Write(val) => {
                    proof {
                        lemma_ram_mask(mem.addr);
                    }
                    let ram_addr = (mem.addr & 0x7fff) as usize;
                    let prev_val = self.ram[ram_addr];
                    self.ram.set(ram_addr, val);
                    Some(MemDiff { addr: mem.addr, op: MemDiffOp::Write(prev_val) })
                },
            },
            None => None,
        };
        CycleDiff { new_reg: prev_reg, queued_pc: prev_queued, mem }
    }

    /// Effect of the next cycle with the given floating-bus value.
    pub fn step(&self, rom: &[RomWord], input: u8, floating: u8) -> (r: CycleDiff)
        requires
            self.wf(),
            rom@.len() == ROM_SIZE,
        ensures
            r == cycle_spec(self.reg, self.ram@, rom@, input, floating),
    {
        cycle(&self.reg, &self.ram, rom, input, floating)
    }

    /// Effect of the next cycle; the floating bus gets a random value.
    pub fn clock(&self, rom: &[RomWord], input: u8) -> (r: CycleDiff)
        requires
            self.wf(),
            rom@.len() == ROM_SIZE,
        ensures
            r == cycle_spec(self.reg, self.ram@, rom@, input, r.new_reg.undef),
    {
        self.step(rom, input, rand::random::<u8>())
    }
}

/// Engine that owns its ROM and input byte and applies each cycle at once.
pub struct Cpu {
    pub rom: Vec<RomWord>,
    pub reg: RegisterFile,
    pub ram: Vec<u8>,
    pub queued_pc: u16,
    pub input: u8,
}

impl View for Cpu {
    type V = CpuView;

    open spec fn view(&self) -> CpuView {
        CpuView { ram: self.ram@, reg: self.reg, queued_pc: self.queued_pc }
    }
}

impl Cpu {
    pub open spec fn wf(&self) -> bool {
        self.rom@.len() == ROM_SIZE && self.ram@.len() == RAM_SIZE
    }

    /// Power-on state over the given ROM: random RAM and registers, program
    /// counter and queued address 0; input reads as 0.
    pub fn new(rom: Vec<RomWord>) -> (r: Self)
        requires
            rom@.len() == ROM_SIZE,
        ensures
            r.wf(),
            r.rom@ == rom@,
            r.input == 0,
            r.reg.pc == 0,
            r.queued_pc == 0,
    {
        Self::with_contents(rom, RegisterFile::new_random(), random_ram())
    }

    /// Power-on engine with the given RAM and registers; input reads as 0.
    /// The deterministic counterpart of `new`.
    pub fn with_contents(rom: Vec<RomWord>, reg: RegisterFile, ram: Vec<u8>) -> (r: Self)
        requires
            rom@.len() == ROM_SIZE,
            ram@.len() == RAM_SIZE,
        ensures
            r.wf(),
            r.rom@ == rom@,
            r.input == 0,
            r@ == (CpuView { ram: ram@, reg: power_on_regs(reg), queued_pc: 0 }),
    {
        let mut cpu = Cpu { rom, reg, ram, queued_pc: 0, input: 0 };
        cpu.reg.pc = 0;
        cpu
    }

    /// Resets the program counter and loads ROM word 0 for execution; RAM and
    /// the other registers are kept.
    pub fn soft_reset(&mut self)
        requires
            old(self).rom@.len() > 0,
        ensures
            final(self).rom == old(self).rom,
            final(self).input == old(self).input,
            final(self)@ == (CpuView {
                ram: old(self)@.ram,
                reg: reset_regs(old(self).reg, old(self).rom@[0]),
                queued_pc: 0,
            }),
    {
        self.reg.pc = 0;
        self.queued_pc = 0;
        let word = self.rom[0];
        self.reg.ir = word.inst;
        self.reg.d = word.data;
    }

    /// Refills RAM and registers with random contents and sets the program
    /// counter and queued address to 0; ROM word 0 is fetched by the next cycle.
    pub fn hard_reset(&mut self)
        requires
            old(self).wf(),
        ensures
            final(self).wf(),
            final(self).rom == old(self).rom,
            final(self).input == old(self).input,
            final(self).reg.pc == 0,
            final(self).queued_pc == 0,
    {
        self.ram = random_ram();
        self.reg = RegisterFile::new_random();
        self.reg.pc = 0;
        self.queued_pc = 0;
    }

    /// Executes one cycle in place and reports its memory access; the floating
    /// bus gets a random value.
    pub fn clock(&mut self) -> (r: CycleInfo)
        requires
            old(self).wf(),
        ensures
            final(self).wf(),
            final(self).rom == old(self).rom,
            final(self).input == old(self).input,
            final(self)@ == apply_spec(
                old(self)@,
                cycle_spec(old(self).reg, old(self).ram@, old(self).rom@, old(self).input, final(self).reg.undef),
            ).0,
            r == access_of(
                cycle_spec(old(self).reg, old(self).ram@, old(self).rom@, old(self).input, final(self).reg.undef),
                old(self).ram@,
            ),
    {
        let floating = rand::random::<u8>();
        self.step_with(floating)
    }

    /// Executes one cycle in place with the given floating-bus value and
    /// reports its memory access.
    pub fn step_with(&mut self, floating: u8) -> (r: CycleInfo)
        requires
            old(self).wf(),
        ensures
            final(self).wf(),
            final(self).rom == old(self).rom,
            final(self).input == old(self).input,
            final(self)@ == apply_spec(
                old(self)@,
                cycle_spec(old(self).reg, old(self).ram@, old(self).rom@, old(self).input, floating),
            ).0,
            r == access_of(
                cycle_spec(old(self).reg, old(self).ram@, old(self).rom@, old(self).input, floating),
                old(self).ram@,
            ),
    {
        let diff = cycle(&self.reg, &self.ram, self.rom.as_slice(), self.input, floating);
        let info = diff.access(&self.ram);
        self.reg = diff.new_reg;
        self.queued_pc = diff.queued_pc;
        if let Some(m) = diff.mem {
            if let MemDiffOp::Write(v) = m.op {
                proof {
                    lemma_ram_mask(m.addr);
                }
                self.ram.set((m.addr & 0x7fff) as usize, v);
            }
        }
        info
    }
}

/// Pipeline lag: from program counter 0 (as after a hard reset), the first
/// cycle executes the instruction already held and only fetches ROM word 0;
/// word 0 takes effect on the second cycle. When the held instruction does
/// not write the accumulator and word 0 loads its data literal into it, the
/// accumulator is unchanged after the first cycle and holds that literal
/// after the second.
pub proof fn lemma_pipeline_lag(
    reg: RegisterFile,
    ram: Seq<u8>,
    later_ram: Seq<u8>,
    rom: Seq<RomWord>,
    input: u8,
    later_input: u8,
    floating: u8,
    later_floating: u8,
)
    requires
        reg.pc == 0,
        rom.len() == ROM_SIZE,
    ensures
        ({
            let first = cycle_regs(reg, ram, rom, input, floating);
            let second = cycle_regs(first, later_ram, rom, later_input, later_floating);
            &&& first.ir == rom[0].inst
            &&& first.d == rom[0].data
            &&& target_of(decode_spec(reg.ir.0)) != ResultDest::AC ==> first.ac == reg.ac
            &&& decode_spec(rom[0].inst.0) == (Instruction {
                op: Operation::Load,
                mode: Mode::Acc_D_Far,
                bus: Bus::Data,
            }) ==> second.ac == rom[0].data
        }),
{
}

/// Sums and differences wrap: when the accumulator receives an Add or a Sub,
/// it holds the accumulator plus or minus the bus value, modulo 256.
pub proof fn lemma_arithmetic_wraps(
    reg: RegisterFile,
    ram: Seq<u8>,
    rom: Seq<RomWord>,
    input: u8,
    floating: u8,
)
    requires
        target_of(decode_spec(reg.ir.0)) == ResultDest::AC,
    ensures
        ({
            let inst = decode_spec(reg.ir.0);
            let b = bus_value(inst, reg, ram, input);
            let ac = cycle_regs(reg, ram, rom, input, floating).ac;
            &&& inst.op == Operation::Add ==> ac as int == (reg.ac as int + b as int) % 256
            &&& inst.op == Operation::Sub ==> ac as int == (reg.ac as int - b as int) % 256
        }),
{
    let inst = decode_spec(reg.ir.0);
    let b = bus_value(inst, reg, ram, input);
    vstd::arithmetic::div_mod::lemma_mod_add_multiples_vanish(reg.ac as int - b as int, 256);
}

/// Applies `ds` in order; also returns the inverse of each effect, in the same order.
pub open spec fn apply_all(s: CpuView, ds: Seq<CycleDiff>) -> (CpuView, Seq<CycleDiff>)
    decreases ds.len(),
{
    if ds.len() == 0 {
        (s, Seq::empty())
    } else {
        let (u, inverses) = apply_all(s, ds.drop_last());
        let (w, inverse) = apply_spec(u, ds.last());
        (w, inverses.push(inverse))
    }
}

/// Applies `ds` from the last effect to the first.
pub open spec fn apply_reversed(s: CpuView, ds: Seq<CycleDiff>) -> CpuView
    decreases ds.len(),
{
    if ds.len() == 0 {
        s
    } else {
        apply_reversed(apply_spec(s, ds.last()).0, ds.drop_last())
    }
}

/// Applying an effect and then the effect it returned restores the state
/// exactly, registers (the floating bus included) and RAM alike.
pub proof fn lemma_apply_inverse(s: CpuView, d: CycleDiff)
    requires
        s.ram.len() == RAM_SIZE,
    ensures
        apply_spec(s, d).0.ram.len() == RAM_SIZE,
        apply_spec(apply_spec(s, d).0, apply_spec(s, d).1).0 == s,
{
    if let Some(MemDiff { addr, op: MemDiffOp::Write(v) }) = d.mem {
        let i = ram_index(addr);
        assert(s.ram.update(i, v).update(i, s.ram[i]) =~= s.ram);
    }
}

/// Applying any sequence of effects, then the returned inverses in reverse
/// order, restores RAM and all registers to their values before the sequence.
pub proof fn lemma_undo_sequence(s: CpuView, ds: Seq<CycleDiff>)
    requires
        s.ram.len() == RAM_SIZE,
    ensures
        apply_all(s, ds).0.ram.len() == RAM_SIZE,
        apply_reversed(apply_all(s, ds).0, apply_all(s, ds).1) == s,
    decreases ds.len(),
{
    if ds.len() > 0 {
        let (u, inverses) = apply_all(s, ds.drop_last());
        lemma_undo_sequence(s, ds.drop_last());
        lemma_apply_inverse(u, ds.last());
        let (w, inverse) = apply_spec(u, ds.last());
        assert(inverses.push(inverse).drop_last() =~= inverses);
    }
}

/// ROM word `i` of an image read as consecutive (opcode, data) byte pairs;
/// words past the end of the image are zero.
pub open spec fn image_word(bytes: Seq<u8>, i: int) -> RomWord {
    if 2 * i + 1 < bytes.len() {
        RomWord { inst: OpCode(bytes[2 * i]), data: bytes[2 * i + 1] }
    } else {
        RomWord { inst: OpCode(0), data: 0 }
    }
}

/// Relies on itertools::Itertools::tuples: the consecutive non-overlapping
/// pairs of the sequence, in order, with a trailing odd byte left out.
#[verifier::external_body]
fn byte_pairs(bytes: Vec<u8>) -> (r: Vec<(u8, u8)>)
    ensures
        r@.len() == bytes@.len() / 2,
        forall|i: int|
            0 <= i < r@.len() ==> #[trigger] r@[i] == (bytes@[2 * i], bytes@[2 * i + 1]),
{
    bytes.into_iter().tuples().collect()
}

/// Full ROM from an image of (opcode, data) byte pairs. Words past the image
/// are zero; pairs past the last ROM address are ignored.
pub fn rom_from_bytes(bytes: Vec<u8>) -> (r: Vec<RomWord>)
    ensures
        r@.len() == ROM_SIZE,
        forall|i: int| 0 <= i < ROM_SIZE ==> #[trigger] r@[i] == image_word(bytes@, i),
{
    let ghost image = bytes@;
    let pairs = byte_pairs(bytes);
    let mut rom: Vec<RomWord> = Vec::with_capacity(ROM_SIZE);
    let mut i: usize = 0;
    while i < ROM_SIZE
        invariant
            i <= ROM_SIZE,
            rom@.len() == i,
            pairs@.len() == image.len() / 2,
            forall|j: int|
                0 <= j < pairs@.len() ==> #[trigger] pairs@[j] == (image[2 * j], image[2 * j + 1]),
            forall|j: int| 0 <= j < i ==> #[trigger] rom@[j] == image_word(image, j),
        decreases ROM_SIZE - i,
    {
        if i < pairs.len() {
            let (inst, data) = pairs[i];
            rom.push(RomWord { inst: OpCode(inst), data });
        } else {
            rom.push(RomWord { inst: OpCode(0), data: 0 });
        }
        i += 1;
    }
    rom
}

} // verus!
