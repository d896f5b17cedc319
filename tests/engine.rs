use gigatron::cpu::{
    rom_from_bytes, Cpu, CpuState, CycleDiff, MemDiff, MemDiffOp, MemOperation, OpCode,
    RegisterFile, ResultDest, RomWord, RAM_SIZE, ROM_SIZE,
};
use gigatron::isa::{Bus, Instruction, Mode, Operation};

fn regs(ir: u8, d: u8, ac: u8) -> RegisterFile {
    RegisterFile { pc: 0, ir: OpCode(ir), d, ac, x: 0, y: 0, out: 0, undef: 0 }
}

fn blank_rom() -> Vec<RomWord> {
    vec![RomWord { inst: OpCode(0), data: 0 }; ROM_SIZE]
}

fn state(reg: RegisterFile) -> CpuState {
    CpuState { ram: vec![0; RAM_SIZE], reg, queued_pc: 0 }
}

fn op(op: Operation, mode: Mode, bus: Bus) -> u8 {
    Instruction { op, mode, bus }.encode()
}

#[test]
fn decode_covers_every_combination_once() {
    let mut seen = std::collections::HashSet::new();
    for b in 0..=255u8 {
        let inst = Instruction::decode(b);
        assert_eq!(inst.encode(), b);
        seen.insert((inst.op.bits(), inst.mode.bits(), inst.bus.bits()));
    }
    assert_eq!(seen.len(), 8 * 8 * 4);
}

#[test]
fn decode_field_layout() {
    assert_eq!(
        Instruction::decode(0x00),
        Instruction { op: Operation::Load, mode: Mode::Acc_D_Far, bus: Bus::Data }
    );
    assert_eq!(
        Instruction::decode(0xE0),
        Instruction { op: Operation::Jump, mode: Mode::Acc_D_Far, bus: Bus::Data }
    );
    assert_eq!(
        Instruction::decode(0b110_100_10),
        Instruction { op: Operation::Store, mode: Mode::X_D_Eq, bus: Bus::Acc }
    );
    assert_eq!(
        Instruction::decode(0b001_111_01),
        Instruction { op: Operation::And, mode: Mode::Out_Y_Xpp_Bra, bus: Bus::Ram }
    );
}

#[test]
fn pipeline_lag() {
    let mut rom = blank_rom();
    rom[0] = RomWord { inst: OpCode(op(Operation::Load, Mode::Acc_D_Far, Bus::Data)), data: 0x42 };
    // The instruction held before the program counter was set to 0 loads X.
    let held = op(Operation::Load, Mode::X_D_Eq, Bus::Data);
    let mut s = state(RegisterFile { pc: 0, ir: OpCode(held), d: 0x11, ac: 0x99, x: 0, y: 0, out: 0, undef: 0 });
    let d1 = s.step(&rom, 0xFF, 0);
    s.apply_diff(d1);
    assert_eq!(s.reg.ac, 0x99);
    assert_eq!(s.reg.x, 0x11);
    assert_eq!(s.reg.ir, rom[0].inst);
    assert_eq!(s.reg.d, 0x42);
    let d2 = s.step(&rom, 0xFF, 0);
    s.apply_diff(d2);
    assert_eq!(s.reg.ac, 0x42);
}

#[test]
fn pipeline_lag_after_hard_reset() {
    let mut rom = blank_rom();
    rom[0] = RomWord { inst: OpCode(op(Operation::Load, Mode::Acc_D_Far, Bus::Data)), data: 0x42 };
    // Power-on contents: the held instruction (drawn before the reset) loads X.
    let held = op(Operation::Load, Mode::X_D_Eq, Bus::Data);
    let drawn = RegisterFile { pc: 0x1234, ir: OpCode(held), d: 0x11, ac: 0x99, x: 0, y: 0, out: 0, undef: 0 };
    let mut s = CpuState::with_contents(drawn, vec![0; RAM_SIZE]);
    assert_eq!(s.reg.pc, 0);
    assert_eq!(s.queued_pc, 0);
    assert_eq!(s.reg.ir, OpCode(held));
    let d1 = s.clock(&rom, 0xFF);
    s.apply_diff(d1);
    assert_eq!(s.reg.ac, 0x99);
    assert_eq!(s.reg.x, 0x11);
    assert_eq!(s.reg.ir, rom[0].inst);
    assert_eq!(s.reg.d, 0x42);
    let d2 = s.clock(&rom, 0xFF);
    s.apply_diff(d2);
    assert_eq!(s.reg.ac, 0x42);
}

#[test]
fn hard_reset_fetches_word_zero_on_the_first_cycle() {
    let mut rom = blank_rom();
    rom[0] = RomWord { inst: OpCode(0x12), data: 0x42 };
    let s = CpuState::hard_reset(&rom);
    assert_eq!(s.reg.pc, 0);
    assert_eq!(s.queued_pc, 0);
    assert_eq!(s.ram.len(), RAM_SIZE);
    let d = s.clock(&rom, 0xFF);
    assert_eq!(d.new_reg.ir, OpCode(0x12));
    assert_eq!(d.new_reg.d, 0x42);
    assert_eq!(d.queued_pc, 0);
}

#[test]
fn add_wraps_modulo_256() {
    let rom = blank_rom();
    let s = state(regs(op(Operation::Add, Mode::Acc_D_Far, Bus::Data), 0x02, 0xFF));
    let d = s.step(&rom, 0, 0);
    assert_eq!(d.new_reg.ac, 0x01);
    assert_eq!(d.mem, None);
}

#[test]
fn sub_wraps_modulo_256() {
    let rom = blank_rom();
    let s = state(regs(op(Operation::Sub, Mode::Acc_D_Far, Bus::Data), 0x02, 0x01));
    let d = s.step(&rom, 0, 0);
    assert_eq!(d.new_reg.ac, 0xFF);
}

#[test]
fn bitwise_operations() {
    let rom = blank_rom();
    let and = state(regs(op(Operation::And, Mode::Acc_D_Far, Bus::Data), 0x0F, 0x3C)).step(&rom, 0, 0);
    assert_eq!(and.new_reg.ac, 0x0C);
    let or = state(regs(op(Operation::Or, Mode::Acc_D_Far, Bus::Data), 0x0F, 0x3C)).step(&rom, 0, 0);
    assert_eq!(or.new_reg.ac, 0x3F);
    let xor = state(regs(op(Operation::Xor, Mode::Acc_D_Far, Bus::Data), 0x0F, 0x3C)).step(&rom, 0, 0);
    assert_eq!(xor.new_reg.ac, 0x33);
}

#[test]
fn input_bus_feeds_the_alu() {
    let rom = blank_rom();
    let d = state(regs(op(Operation::Load, Mode::Out_D_Le, Bus::In), 0, 0)).step(&rom, 0xF7, 0);
    assert_eq!(d.new_reg.out, 0xF7);
    assert_eq!(d.new_reg.ac, 0);
}

#[test]
fn store_and_index_in_one_cycle() {
    let rom = blank_rom();
    let s = state(regs(op(Operation::Store, Mode::X_D_Eq, Bus::Acc), 0x10, 0x7A));
    let mut s2 = CpuState { ram: s.ram.clone(), reg: s.reg, queued_pc: s.queued_pc };
    let d = s.step(&rom, 0, 0);
    assert_eq!(d.mem, Some(MemDiff { addr: 0x0010, op: MemDiffOp::Write(0x7A) }));
    s2.apply_diff(d);
    assert_eq!(s2.ram[0x0010], 0x7A);
    assert_eq!(s2.reg.x, 0x7A);
    assert_eq!(s2.reg.ac, 0x7A);
}

#[test]
fn store_suppresses_accumulator_destination() {
    let rom = blank_rom();
    let mut s = state(regs(op(Operation::Store, Mode::Acc_D_Far, Bus::Data), 0x20, 0x55));
    let d = s.step(&rom, 0, 0);
    s.apply_diff(d);
    assert_eq!(s.ram[0x20], 0x20);
    assert_eq!(s.reg.ac, 0x55);
}

#[test]
fn store_from_ram_bus_writes_floating_value() {
    let rom = blank_rom();
    let mut reg = regs(op(Operation::Store, Mode::Acc_D_Far, Bus::Ram), 0x20, 0x55);
    reg.undef = 0xA5;
    let d = state(reg).step(&rom, 0, 0x3C);
    assert_eq!(d.mem, Some(MemDiff { addr: 0x20, op: MemDiffOp::Write(0xA5) }));
    assert_eq!(d.new_reg.undef, 0x3C);
    assert_eq!(d.new_reg.ac, 0x55);
}

#[test]
fn ram_address_masked_to_15_bits() {
    let rom = blank_rom();
    let mut reg = regs(op(Operation::Load, Mode::Acc_Y_X_Ne, Bus::Ram), 0, 0);
    reg.y = 0x81;
    reg.x = 0x02;
    let mut s = state(reg);
    s.ram[0x0102] = 0x77;
    let d = s.step(&rom, 0, 0);
    assert_eq!(d.new_reg.ac, 0x77);
    assert_eq!(d.mem, Some(MemDiff { addr: 0x8102, op: MemDiffOp::Read }));
}

#[test]
fn post_increment_of_x() {
    let rom = blank_rom();
    let mut reg = regs(op(Operation::Load, Mode::Out_Y_Xpp_Bra, Bus::Ram), 0, 0);
    reg.y = 0x01;
    reg.x = 0xFF;
    let mut s = state(reg);
    s.ram[0x01FF] = 0x3C;
    let d = s.step(&rom, 0, 0);
    assert_eq!(d.new_reg.out, 0x3C);
    assert_eq!(d.new_reg.x, 0x00);
}

#[test]
fn branch_condition_table() {
    let rom = blank_rom();
    let beq = op(Operation::Jump, Mode::X_D_Eq, Bus::Data);
    let mut taken = regs(beq, 0x56, 0x00);
    taken.pc = 0x1234;
    let d = state(taken).step(&rom, 0, 0);
    assert_eq!(d.new_reg.pc, 0x1256);
    let mut not_taken = regs(beq, 0x56, 0x80);
    not_taken.pc = 0x1234;
    let d = state(not_taken).step(&rom, 0, 0);
    assert_eq!(d.new_reg.pc, 0x1235);
    assert_eq!(d.new_reg.ac, 0x80);
}

#[test]
fn branch_conditions_by_sign() {
    let rom = blank_rom();
    let cases = [
        (Mode::Acc_X_Gt, 0x01u8, true),
        (Mode::Acc_X_Gt, 0x00, false),
        (Mode::Acc_Y_D_Lt, 0xFF, true),
        (Mode::Acc_Y_D_Lt, 0x01, false),
        (Mode::Acc_Y_X_Ne, 0x80, true),
        (Mode::Acc_Y_X_Ne, 0x00, false),
        (Mode::Y_D_Ge, 0x00, true),
        (Mode::Y_D_Ge, 0x90, false),
        (Mode::Out_D_Le, 0x00, true),
        (Mode::Out_D_Le, 0x7F, false),
        (Mode::Out_Y_Xpp_Bra, 0x7F, true),
    ];
    for (mode, ac, branch) in cases {
        let mut reg = regs(op(Operation::Jump, mode, Bus::Data), 0x10, ac);
        reg.pc = 0x0300;
        let d = state(reg).step(&rom, 0, 0);
        assert_eq!(d.new_reg.pc, if branch { 0x0310 } else { 0x0301 });
    }
}

#[test]
fn far_jump_uses_y_as_high_byte() {
    let rom = blank_rom();
    let mut reg = regs(op(Operation::Jump, Mode::Acc_D_Far, Bus::Data), 0x34, 0);
    reg.y = 0x12;
    reg.pc = 0x4000;
    let d = state(reg).step(&rom, 0, 0);
    assert_eq!(d.new_reg.pc, 0x1234);
    assert_eq!(d.new_reg.ac, 0);
}

#[test]
fn fetch_happens_on_every_cycle() {
    let mut rom = blank_rom();
    rom[0x0305] = RomWord { inst: OpCode(0xAB), data: 0xCD };
    let mut reg = regs(op(Operation::Jump, Mode::Acc_D_Far, Bus::Data), 0x00, 0);
    reg.pc = 0x0305;
    let d = state(reg).step(&rom, 0, 0);
    assert_eq!(d.new_reg.ir, OpCode(0xAB));
    assert_eq!(d.new_reg.d, 0xCD);
    assert_eq!(d.queued_pc, 0x0305);
}

#[test]
fn pc_wraps_at_end_of_rom() {
    let rom = blank_rom();
    let mut reg = regs(op(Operation::Load, Mode::Acc_D_Far, Bus::Data), 0, 0);
    reg.pc = 0xFFFF;
    let d = state(reg).step(&rom, 0, 0);
    assert_eq!(d.new_reg.pc, 0);
}

#[test]
fn undo_restores_state_after_many_cycles() {
    let mut rom = blank_rom();
    // A small loop that stores through [y,x++] and counts in the accumulator.
    rom[0] = RomWord { inst: OpCode(op(Operation::Add, Mode::Acc_D_Far, Bus::Data)), data: 3 };
    rom[1] = RomWord { inst: OpCode(op(Operation::Store, Mode::Out_Y_Xpp_Bra, Bus::Acc)), data: 0 };
    rom[2] = RomWord { inst: OpCode(op(Operation::Load, Mode::Y_D_Ge, Bus::Ram)), data: 7 };
    rom[3] = RomWord { inst: OpCode(op(Operation::Jump, Mode::Out_Y_Xpp_Bra, Bus::Data)), data: 0 };
    let mut ram = vec![0u8; RAM_SIZE];
    for (i, b) in ram.iter_mut().enumerate() {
        *b = (i * 7 + 3) as u8;
    }
    let reg = RegisterFile { pc: 5, ir: OpCode(0x5A), d: 0x21, ac: 0x90, x: 0xFE, y: 0x02, out: 0x40, undef: 9 };
    let mut s = CpuState::with_contents(reg, ram);
    let start_ram = s.ram.clone();
    let start_reg = s.reg;
    let start_queued = s.queued_pc;
    let mut undo: Vec<CycleDiff> = Vec::new();
    for i in 0..200u32 {
        let d = s.step(&rom, (i % 256) as u8, (i * 13 % 256) as u8);
        undo.push(s.apply_diff(d));
    }
    assert_ne!(s.ram, start_ram);
    while let Some(d) = undo.pop() {
        s.apply_diff(d);
    }
    assert_eq!(s.ram, start_ram);
    assert_eq!(s.reg, start_reg);
    assert_eq!(s.queued_pc, start_queued);
}

#[test]
fn cpu_clock_reports_accesses() {
    let mut rom = blank_rom();
    rom[1] = RomWord { inst: OpCode(op(Operation::Store, Mode::Acc_D_Far, Bus::Data)), data: 0x30 };
    rom[2] = RomWord { inst: OpCode(op(Operation::Load, Mode::Acc_D_Far, Bus::Ram)), data: 0x30 };
    let mut ram = vec![0u8; RAM_SIZE];
    ram[0x30] = 0x11;
    let mut cpu = Cpu::with_contents(rom, regs(0, 0, 0), ram);
    assert_eq!(cpu.reg.pc, 0);
    // The held instruction (ld $00) runs first while word 0 is fetched.
    assert_eq!(cpu.step_with(0).mem_access, None);
    assert_eq!(cpu.step_with(0).mem_access, None);
    assert_eq!(cpu.queued_pc, 1);
    let store = cpu.step_with(0);
    let access = store.mem_access.unwrap();
    assert_eq!(access.addr, 0x30);
    assert_eq!(access.op, MemOperation::Write { prev_val: 0x11, new_val: 0x30 });
    assert_eq!(cpu.ram[0x30], 0x30);
    assert_eq!(cpu.queued_pc, 2);
    let load = cpu.clock();
    assert_eq!(load.mem_access.unwrap().op, MemOperation::Read { val: 0x30 });
    assert_eq!(cpu.reg.ac, 0x30);
    assert_eq!(cpu.queued_pc, 3);
    assert_eq!(cpu.reg.pc, 4);
}

#[test]
fn cpu_resets() {
    let mut rom = blank_rom();
    rom[0] = RomWord { inst: OpCode(0x12), data: 0x34 };
    let mut cpu = Cpu::new(rom);
    assert_eq!(cpu.reg.pc, 0);
    assert_eq!(cpu.queued_pc, 0);
    assert_eq!(cpu.input, 0);
    assert_eq!(cpu.ram.len(), RAM_SIZE);
    cpu.ram[5] = 0x99;
    cpu.reg.ac = 0x66;
    cpu.reg.pc = 0x200;
    cpu.queued_pc = 0x1FF;
    cpu.soft_reset();
    assert_eq!(cpu.ram[5], 0x99);
    assert_eq!(cpu.reg.ac, 0x66);
    assert_eq!(cpu.reg.pc, 0);
    assert_eq!(cpu.queued_pc, 0);
    cpu.reg.pc = 0x300;
    cpu.queued_pc = 0x2FF;
    cpu.hard_reset();
    assert_eq!(cpu.reg.pc, 0);
    assert_eq!(cpu.queued_pc, 0);
    assert_eq!(cpu.ram.len(), RAM_SIZE);
    cpu.clock();
    assert_eq!(cpu.reg.ir, OpCode(0x12));
    assert_eq!(cpu.reg.d, 0x34);
}

#[test]
fn soft_reset_of_state_keeps_ram() {
    let mut rom = blank_rom();
    rom[0] = RomWord { inst: OpCode(0x01), data: 0x02 };
    let mut s = state(RegisterFile { pc: 0x77, ir: OpCode(9), d: 9, ac: 1, x: 2, y: 3, out: 4, undef: 5 });
    s.ram[3] = 8;
    s.queued_pc = 0x76;
    s.soft_reset(&rom);
    assert_eq!(s.reg, RegisterFile { pc: 0, ir: OpCode(1), d: 2, ac: 1, x: 2, y: 3, out: 4, undef: 5 });
    assert_eq!(s.queued_pc, 0);
    assert_eq!(s.ram[3], 8);
}

#[test]
fn mask_write_keeps_index_registers() {
    assert_eq!(ResultDest::AC.mask_write(true), ResultDest::Nowhere);
    assert_eq!(ResultDest::OUT.mask_write(true), ResultDest::Nowhere);
    assert_eq!(ResultDest::X.mask_write(true), ResultDest::X);
    assert_eq!(ResultDest::Y.mask_write(true), ResultDest::Y);
    assert_eq!(ResultDest::AC.mask_write(false), ResultDest::AC);
}

#[test]
fn rom_image_pairs_bytes() {
    let rom = rom_from_bytes(vec![1, 2, 3, 4, 5]);
    assert_eq!(rom.len(), ROM_SIZE);
    assert_eq!(rom[0], RomWord { inst: OpCode(1), data: 2 });
    assert_eq!(rom[1], RomWord { inst: OpCode(3), data: 4 });
    assert_eq!(rom[2], RomWord { inst: OpCode(0), data: 0 });
}

#[test]
fn rom_image_longer_than_rom_is_truncated() {
    let bytes: Vec<u8> = (0..(2 * ROM_SIZE + 4)).map(|i| (i % 251) as u8).collect();
    let rom = rom_from_bytes(bytes);
    assert_eq!(rom.len(), ROM_SIZE);
    let last = ROM_SIZE - 1;
    assert_eq!(rom[last], RomWord { inst: OpCode(((2 * last) % 251) as u8), data: ((2 * last + 1) % 251) as u8 });
}
