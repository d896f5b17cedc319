use std::collections::BTreeMap;

use gigatron::cpu::{Cpu, MemOperation, OpCode, RegisterFile, RomWord, RAM_SIZE, ROM_SIZE};
use gigatron::debugger::{
    clock_cpu, frame_control, run_frame, Debugger, FrameControl, PauseReason, RunControl,
    RunState, WatchEntry, WatchType, WatchesPanel, LOG_CAPACITY,
};
use gigatron::isa::{Bus, Instruction, Mode, Operation};
use gigatron::vga::{frame_cycles, SyncTiming, TimingResult, Vga, HSYNC, VSYNC};
use gigatron::cpu::MemAccess;

fn inst(op: Operation, mode: Mode, bus: Bus) -> Instruction {
    Instruction { op, mode, bus }
}

fn word(op: Operation, mode: Mode, bus: Bus, data: u8) -> RomWord {
    RomWord { inst: OpCode(inst(op, mode, bus).encode()), data }
}

fn zero_regs() -> RegisterFile {
    RegisterFile { pc: 0, ir: OpCode(0), d: 0, ac: 0, x: 0, y: 0, out: 0, undef: 0 }
}

#[test]
fn disassemble_load_and_store() {
    let labels = BTreeMap::new();
    assert_eq!(
        inst(Operation::Load, Mode::Acc_D_Far, Bus::Data).disassemble(0x0010, 0x42, &labels),
        "0010  ld   $42,ac"
    );
    assert_eq!(
        inst(Operation::Store, Mode::Acc_D_Far, Bus::Acc).disassemble(0xabcd, 0x05, &labels),
        "abcd  st   ac"
    );
    assert_eq!(
        inst(Operation::Load, Mode::Out_Y_Xpp_Bra, Bus::Ram).disassemble(0x0100, 0x00, &labels),
        "0100  ld   [y,x++],out"
    );
    assert_eq!(
        inst(Operation::Add, Mode::Acc_Y_D_Lt, Bus::Ram).disassemble(0x0001, 0x3f, &labels),
        "0001  adda [y,$3f],ac"
    );
    assert_eq!(
        inst(Operation::Store, Mode::X_D_Eq, Bus::In).disassemble(0x0002, 0x30, &labels),
        "0002  st   in,x"
    );
    assert_eq!(
        inst(Operation::Xor, Mode::Acc_X_Gt, Bus::Ram).disassemble(0x0003, 0, &labels),
        "0003  xora [x],ac"
    );
}

#[test]
fn disassemble_jumps() {
    let mut labels = BTreeMap::new();
    labels.insert(0x0210u16, "loop".to_string());
    assert_eq!(
        inst(Operation::Jump, Mode::Acc_D_Far, Bus::Data).disassemble(0x0005, 0x12, &labels),
        "0005  jmp y,$12"
    );
    assert_eq!(
        inst(Operation::Jump, Mode::Acc_Y_X_Ne, Bus::Data).disassemble(0x01ff, 0x10, &labels),
        "01ff  bne  'loop'"
    );
    assert_eq!(
        inst(Operation::Jump, Mode::X_D_Eq, Bus::Data).disassemble(0x0120, 0x34, &labels),
        "0120  beq  $0134"
    );
    assert_eq!(
        inst(Operation::Jump, Mode::Out_Y_Xpp_Bra, Bus::Ram).disassemble(0x0120, 0x34, &labels),
        "0120  bra  [34]"
    );
}

#[test]
fn watches_log_matching_accesses() {
    let mut rom = vec![RomWord { inst: OpCode(0), data: 0 }; ROM_SIZE];
    rom[1] = word(Operation::Store, Mode::Acc_D_Far, Bus::Data, 0x40);
    rom[2] = word(Operation::Load, Mode::Acc_D_Far, Bus::Ram, 0x40);
    rom[3] = word(Operation::Load, Mode::Acc_D_Far, Bus::Ram, 0x41);
    let mut cpu = Cpu::with_contents(rom, zero_regs(), vec![0; RAM_SIZE]);
    let mut watches = WatchesPanel::new();
    watches.add_watch(0x40, WatchType::Write);
    watches.add_watch(0x41, WatchType::Write);
    for _ in 0..5 {
        clock_cpu(&mut cpu, &mut watches);
    }
    assert_eq!(watches.log.len(), 1);
    assert_eq!(
        watches.log[0],
        WatchEntry {
            pc: 1,
            access: MemAccess { addr: 0x40, op: MemOperation::Write { prev_val: 0, new_val: 0x40 } }
        }
    );
    watches.add_watch(0x40, WatchType::Read);
    let w = watches.watches[&0x40];
    assert!(w.read && w.write);
}

#[test]
fn watch_log_is_bounded() {
    let mut watches = WatchesPanel::new();
    for i in 0..(LOG_CAPACITY as u16 + 20) {
        watches.append_log(WatchEntry {
            pc: i,
            access: MemAccess { addr: 0, op: MemOperation::Read { val: 0 } },
        });
    }
    assert_eq!(watches.log.len(), LOG_CAPACITY);
    assert_eq!(watches.log[0].pc, 20);
    assert_eq!(watches.log[LOG_CAPACITY - 1].pc, LOG_CAPACITY as u16 + 19);
}

#[test]
fn breakpoints() {
    let mut dbg = Debugger::new();
    assert!(!dbg.has_breakpoint(0x1234));
    dbg.set_breakpoint(0x1234, true);
    assert!(dbg.has_breakpoint(0x1234));
    assert!(dbg.should_break(0x1234));
    dbg.breakpoints_enabled = false;
    assert!(!dbg.should_break(0x1234));
    dbg.set_breakpoint(0x1234, false);
    assert!(!dbg.has_breakpoint(0x1234));
    dbg.set_breakpoint(0xFFFF, true);
    assert!(dbg.has_breakpoint(0xFFFF));
}

#[test]
fn run_control_states() {
    let mut rc = RunControl::new();
    assert_eq!(rc.run_state(false), RunState::FullSpeed);
    rc.pause(PauseReason::Manual);
    assert_eq!(rc.run_state(false), RunState::Paused);
    assert_eq!(rc.run_state(true), RunState::Step);
    assert_eq!(PauseReason::HorizCycleErr.label(), "Horizontal Cycle Error");
    assert_eq!(PauseReason::Breakpoint.label(), "Hit Breakpoint");
}

fn small_vga() -> (SyncTiming, SyncTiming, Vga) {
    let h = SyncTiming { front_porch: 0, pulse: 4, back_porch: 0, visible: 4 };
    let v = SyncTiming { front_porch: 0, pulse: 1, back_porch: 0, visible: 1 };
    let vga = Vga::new(&h, &v);
    (h, v, vga)
}

#[test]
fn frame_cycles_of_standard_timing() {
    let h = SyncTiming { front_porch: 16, pulse: 96, back_porch: 48, visible: 640 };
    let v = SyncTiming { front_porch: 6, pulse: 8, back_porch: 27, visible: 480 };
    assert_eq!(frame_cycles(&h, &v), 800 * 521 / 4);
}

#[test]
fn frame_control_decisions() {
    let quiet = TimingResult { should_render: false, horiz_cycle_err: false };
    let frame = TimingResult { should_render: true, horiz_cycle_err: false };
    let bad_line = TimingResult { should_render: true, horiz_cycle_err: true };
    assert_eq!(frame_control(quiet, true, 5, 10), FrameControl::Continue);
    assert_eq!(frame_control(quiet, true, 10, 10), FrameControl::Pause(PauseReason::FrameTimeout));
    assert_eq!(frame_control(frame, false, 10, 10), FrameControl::Frame);
    assert_eq!(frame_control(bad_line, false, 3, 10), FrameControl::Frame);
    assert_eq!(frame_control(bad_line, true, 3, 10), FrameControl::Pause(PauseReason::HorizCycleErr));
}

#[test]
fn run_frame_stops_at_breakpoint_and_timeout() {
    let rom = vec![RomWord { inst: OpCode(0), data: 0 }; ROM_SIZE];
    let mut cpu = Cpu::with_contents(rom, zero_regs(), vec![0; RAM_SIZE]);
    let (_, _, mut vga) = small_vga();
    let mut watches = WatchesPanel::new();
    let mut dbg = Debugger::new();
    let mut rc = RunControl::new();
    dbg.set_breakpoint(3, true);
    let r = run_frame(&mut cpu, &mut vga, &mut watches, &dbg, &mut rc, 100);
    assert_eq!(r.reason, Some(PauseReason::Breakpoint));
    assert_eq!(r.cycles, 4);
    assert_eq!(cpu.queued_pc, 3);
    assert_eq!(rc.paused, Some(PauseReason::Breakpoint));
    // Still on the breakpoint: the run stops before any cycle.
    let r = run_frame(&mut cpu, &mut vga, &mut watches, &dbg, &mut rc, 100);
    assert_eq!(r.reason, Some(PauseReason::Breakpoint));
    assert_eq!(r.cycles, 0);
    assert_eq!(r.last, None);
    assert_eq!(cpu.queued_pc, 3);
    dbg.set_breakpoint(3, false);
    let r = run_frame(&mut cpu, &mut vga, &mut watches, &dbg, &mut rc, 10);
    assert_eq!(r.reason, Some(PauseReason::FrameTimeout));
    assert_eq!(r.cycles, 10);
}

#[test]
fn run_frame_ends_on_vertical_sync() {
    // Output register toggles: ld $c0,out ; ld $00,out ; then loop back.
    let mut rom = vec![RomWord { inst: OpCode(0), data: 0 }; ROM_SIZE];
    rom[1] = word(Operation::Load, Mode::Out_D_Le, Bus::Data, VSYNC | HSYNC);
    rom[2] = word(Operation::Load, Mode::Out_D_Le, Bus::Data, 0);
    rom[3] = word(Operation::Jump, Mode::Acc_D_Far, Bus::Data, 1);
    let mut cpu = Cpu::with_contents(rom, zero_regs(), vec![0; RAM_SIZE]);
    let (_, _, mut vga) = small_vga();
    let mut watches = WatchesPanel::new();
    let dbg = Debugger::new();
    let mut rc = RunControl::new();
    let r = run_frame(&mut cpu, &mut vga, &mut watches, &dbg, &mut rc, 1000);
    assert_eq!(r.reason, None);
    assert!(r.last.unwrap().should_render);
    assert_eq!(rc.paused, None);
    rc.break_on_horiz_cycle_errors = true;
    let r = run_frame(&mut cpu, &mut vga, &mut watches, &dbg, &mut rc, 1000);
    assert_eq!(r.reason, Some(PauseReason::HorizCycleErr));
    assert!(r.last.unwrap().horiz_cycle_err);
}
