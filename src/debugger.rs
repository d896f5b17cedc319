//! Debugger-side bookkeeping around the engine: memory watches with a bounded
//! log, ROM breakpoints, and the pause state of the run loop.
use std::collections::BTreeMap;
use std::collections::VecDeque;

use bit_set::BitSet;

use vstd::prelude::*;

use crate::cpu::{access_of, apply_spec, cycle_spec, Cpu, MemAccess, MemOperation, ROM_SIZE};
use crate::vga::{TimingResult, Vga};

verus! {

broadcast use vstd::laws_cmp::group_laws_cmp;

/// Number of entries the watch log keeps.
pub const LOG_CAPACITY: usize = 100;

#[derive(Clone, Copy, Debug, PartialEq, Eq, Structural)]
pub enum WatchType {
    Read,
    Write,
}

/// Which accesses to an address are logged.
#[derive(Clone, Copy, Debug, PartialEq, Eq, Structural)]
pub struct Watch {
    pub read: bool,
    pub write: bool,
}

/// A logged access and the queued address of the instruction that made it.
#[derive(Clone, Copy, Debug, PartialEq, Eq, Structural)]
pub struct WatchEntry {
    pub pc: u16,
    pub access: MemAccess,
}

pub struct WatchesPanel {
    pub watches: BTreeMap<u16, Watch>,
    pub log: VecDeque<WatchEntry>,
    pub new_op_idx: usize,
    pub new_addr: u16,
}

/// The watch on an address after adding a watch of type `ty`.
pub open spec fn watch_added(watches: Map<u16, Watch>, addr: u16, ty: WatchType) -> Watch {
    let prev = if watches.contains_key(addr) {
        watches[addr]
    } else {
        Watch { read: false, write: false }
    };
    match ty {
        WatchType::Read => Watch { read: true, write: prev.write },
        WatchType::Write => Watch { read: prev.read, write: true },
    }
}

/// The last `LOG_CAPACITY` entries of `log` (all of them if there are fewer).
pub open spec fn log_tail(log: Seq<WatchEntry>) -> Seq<WatchEntry> {
    if log.len() > LOG_CAPACITY {
        log.subrange(log.len() - LOG_CAPACITY, log.len() as int)
    } else {
        log
    }
}

/// Whether a watch covers an access: a read of a read-watched address or a
/// write to a write-watched one.
pub open spec fn watched(watches: Map<u16, Watch>, access: MemAccess) -> bool {
    watches.contains_key(access.addr) && match access.op {
        MemOperation::Read { .. } => watches[access.addr].read,
        MemOperation::Write { .. } => watches[access.addr].write,
    }
}

impl WatchesPanel {
    pub fn new() -> (r: Self)
        ensures
            r.watches@ == Map::<u16, Watch>::empty(),
            r.log@ == Seq::<WatchEntry>::empty(),
            r.new_op_idx == 0,
            r.new_addr == 0,
    {
        WatchesPanel { watches: BTreeMap::new(), log: VecDeque::new(), new_op_idx: 0, new_addr: 0 }
    }

    /// Watches `addr` for accesses of type `ty`, keeping any other type
    /// already watched there.
    pub fn add_watch(&mut self, addr: u16, ty: WatchType)
        ensures
            final(self).watches@ == old(self).watches@.insert(
                addr,
                watch_added(old(self).watches@, addr, ty),
            ),
            final(self).log@ == old(self).log@,
    {
        let mut entry = match self.watches.get(&addr) {
            Some(w) => *w,
            None => Watch { read: false, write: false },
        };
        match ty {
            WatchType::Read => entry.read = true,
            WatchType::Write => entry.write = true,
        }
        self.watches.insert(addr, entry);
    }

    /// Appends to the log, dropping the oldest entries beyond its capacity.
    pub fn append_log(&mut self, entry: WatchEntry)
        ensures
            final(self).log@ == log_tail(old(self).log@.push(entry)),
            final(self).watches@ == old(self).watches@,
    {
        let ghost full = self.log@.push(entry);
        self.log.push_back(entry);
        while self.log.len() > LOG_CAPACITY
            invariant
                self.watches@ == old(self).watches@,
                full.len() >= self.log@.len(),
                self.log@ == full.subrange(full.len() - self.log@.len(), full.len() as int),
                full.len() > LOG_CAPACITY ==> self.log@.len() >= LOG_CAPACITY,
                full.len() <= LOG_CAPACITY ==> self.log@ == full,
            decreases self.log@.len(),
        {
            self.log.pop_front();
        }
        assert(full.len() > LOG_CAPACITY ==> self.log@ =~= log_tail(full));
    }
}

/// Logs an access if a watch covers it.
fn log_access(watches: &mut WatchesPanel, pc: u16, access: MemAccess)
    ensures
        final(watches).watches@ == old(watches).watches@,
        final(watches).log@ == if watched(old(watches).watches@, access) {
            log_tail(old(watches).log@.push(WatchEntry { pc, access }))
        } else {
            old(watches).log@
        },
{
    if let Some(watch) = watches.watches.get(&access.addr) {
        let log = match access.op {
            MemOperation::Read { .. } => watch.read,
            MemOperation::Write { .. } => watch.write,
        };
        if log {
            watches.append_log(WatchEntry { pc, access });
        }
    }
}

/// Runs one cycle and logs its memory access if a watch covers it, with the
/// queued address from before the cycle.
pub fn clock_cpu(cpu: &mut Cpu, watches: &mut WatchesPanel)
    requires
        old(cpu).wf(),
    ensures
        final(cpu).wf(),
        final(cpu).rom == old(cpu).rom,
        final(cpu).input == old(cpu).input,
        final(cpu)@ == apply_spec(
            old(cpu)@,
            cycle_spec(old(cpu).reg, old(cpu).ram@, old(cpu).rom@, old(cpu).input, final(cpu).reg.undef),
        ).0,
        final(watches).watches@ == old(watches).watches@,
        final(watches).log@ == match access_of(
            cycle_spec(old(cpu).reg, old(cpu).ram@, old(cpu).rom@, old(cpu).input, final(cpu).reg.undef),
            old(cpu).ram@,
        ).mem_access {
            Some(access) => if watched(old(watches).watches@, access) {
                log_tail(old(watches).log@.push(WatchEntry { pc: old(cpu).queued_pc, access }))
            } else {
                old(watches).log@
            },
            None => old(watches).log@,
        },
{
    let pc = cpu.queued_pc;
    let info = cpu.clock();
    if let Some(access) = info.mem_access {
        log_access(watches, pc, access);
    }
}

/// Set of breakpoint addresses, kept in a `bit_set::BitSet`.
#[verifier::external_body]
pub struct BreakpointSet {
    bits: BitSet,
}

/// The addresses a breakpoint set holds.
pub uninterp spec fn breakpoint_members(s: BreakpointSet) -> Set<usize>;

/// Relies on bit_set::BitSet::with_capacity: an empty set with room for
/// `nbits` values.
#[verifier::external_body]
fn empty_breakpoints(nbits: usize) -> (r: BreakpointSet)
    ensures
        breakpoint_members(r) == Set::<usize>::empty(),
{
    BreakpointSet { bits: BitSet::with_capacity(nbits) }
}

/// Relies on bit_set::BitSet::insert: the set grows as needed and then holds `value`.
#[verifier::external_body]
fn breakpoints_insert(s: &mut BreakpointSet, value: usize)
    ensures
        breakpoint_members(*final(s)) == breakpoint_members(*old(s)).insert(value),
{
    s.bits.insert(value);
}

/// Relies on bit_set::BitSet::remove: `value` is no longer in the set.
#[verifier::external_body]
fn breakpoints_remove(s: &mut BreakpointSet, value: usize)
    ensures
        breakpoint_members(*final(s)) == breakpoint_members(*old(s)).remove(value),
{
    s.bits.remove(value);
}

/// Relies on bit_set::BitSet::contains: whether `value` is in the set.
#[verifier::external_body]
fn breakpoints_contains(s: &BreakpointSet, value: usize) -> (r: bool)
    ensures
        r == breakpoint_members(*s).contains(value),
{
    s.bits.contains(value)
}

/// ROM breakpoints, matched against the queued address before each cycle.
pub struct Debugger {
    pub breakpoints: BreakpointSet,
    pub breakpoints_enabled: bool,
    pub new_addr: u16,
}

impl Debugger {
    /// Addresses that hold a breakpoint.
    pub open spec fn breakpoint_addrs(&self) -> Set<usize> {
        breakpoint_members(self.breakpoints)
    }

    pub fn new() -> (r: Self)
        ensures
            r.breakpoint_addrs() == Set::<usize>::empty(),
            r.breakpoints_enabled,
            r.new_addr == 0,
    {
        Debugger { breakpoints: empty_breakpoints(ROM_SIZE), breakpoints_enabled: true, new_addr: 0 }
    }

    pub fn set_breakpoint(&mut self, addr: u16, enabled: bool)
        ensures
            final(self).breakpoint_addrs() == if enabled {
                old(self).breakpoint_addrs().insert(addr as usize)
            } else {
                old(self).breakpoint_addrs().remove(addr as usize)
            },
            final(self).breakpoints_enabled == old(self).breakpoints_enabled,
    {
        if enabled {
            breakpoints_insert(&mut self.breakpoints, addr as usize);
        } else {
            breakpoints_remove(&mut self.breakpoints, addr as usize);
        }
    }

    pub fn has_breakpoint(&self, addr: u16) -> (r: bool)
        ensures
            r == self.breakpoint_addrs().contains(addr as usize),
    {
        breakpoints_contains(&self.breakpoints, addr as usize)
    }

    /// Whether execution stops before the instruction queued at `addr`.
    pub open spec fn should_break_spec(&self, addr: u16) -> bool {
        self.breakpoints_enabled && self.breakpoint_addrs().contains(addr as usize)
    }

    /// Whether execution stops before the instruction queued at `addr`.
    pub fn should_break(&self, addr: u16) -> (r: bool)
        ensures
            r == self.should_break_spec(addr),
    {
        self.breakpoints_enabled && self.has_breakpoint(addr)
    }
}

#[derive(Clone, Copy, Debug, PartialEq, Eq, Structural)]
pub enum RunState {
    FullSpeed,
    Step,
    Paused,
}

#[derive(Clone, Copy, Debug, PartialEq, Eq, Structural)]
pub enum PauseReason {
    Manual,
    Breakpoint,
    FrameTimeout,
    HorizCycleErr,
}

impl PauseReason {
    /// Text shown for the reason.
    pub fn label(&self) -> (r: &'static str)
        ensures
            r@ == match *self {
                PauseReason::Manual => "Manual"@,
                PauseReason::Breakpoint => "Hit Breakpoint"@,
                PauseReason::FrameTimeout => "Frame Timeout"@,
                PauseReason::HorizCycleErr => "Horizontal Cycle Error"@,
            },
    {
        match self {
            PauseReason::Manual => "Manual",
            PauseReason::Breakpoint => "Hit Breakpoint",
            PauseReason::FrameTimeout => "Frame Timeout",
            PauseReason::HorizCycleErr => "Horizontal Cycle Error",
        }
    }
}

pub struct RunControl {
    pub paused: Option<PauseReason>,
    pub break_on_horiz_cycle_errors: bool,
}

impl RunControl {
    pub fn new() -> (r: Self)
        ensures
            r.paused == None::<PauseReason>,
            !r.break_on_horiz_cycle_errors,
    {
        RunControl { paused: None, break_on_horiz_cycle_errors: false }
    }

    pub fn pause(&mut self, reason: PauseReason)
        ensures
            final(self).paused == Some(reason),
            final(self).break_on_horiz_cycle_errors == old(self).break_on_horiz_cycle_errors,
    {
        self.paused = Some(reason);
    }

    /// How the next frame runs: one cycle when a step was asked for,
    /// none while paused, else at full speed.
    pub fn run_state(&self, step: bool) -> (r: RunState)
        ensures
            r == if step {
                RunState::Step
            } else if self.paused is Some {
                RunState::Paused
            } else {
                RunState::FullSpeed
            },
    {
        if step {
            RunState::Step
        } else if self.paused.is_some() {
            RunState::Paused
        } else {
            RunState::FullSpeed
        }
    }
}

/// What a frame run does after a cycle.
#[derive(Clone, Copy, Debug, PartialEq, Eq, Structural)]
pub enum FrameControl {
    /// Go on with the next cycle.
    Continue,
    /// A frame was completed: stop without pausing.
    Frame,
    /// Stop and pause for the given reason.
    Pause(PauseReason),
}

/// Decision after cycle number `cycles` (counted from 1) of a frame run, given
/// what the raster interpreter reported for it.
pub open spec fn frame_control_spec(
    timing: TimingResult,
    break_on_horiz_cycle_errors: bool,
    cycles: u64,
    max_cycles: u64,
) -> FrameControl {
    if break_on_horiz_cycle_errors && timing.horiz_cycle_err {
        FrameControl::Pause(PauseReason::HorizCycleErr)
    } else if timing.should_render {
        FrameControl::Frame
    } else if cycles >= max_cycles {
        FrameControl::Pause(PauseReason::FrameTimeout)
    } else {
        FrameControl::Continue
    }
}

/// Decides what a frame run does after cycle number `cycles`: pause on a
/// horizontal timing error when those break, stop at a completed frame, pause
/// when `max_cycles` cycles went by without one, else go on.
pub fn frame_control(
    timing: TimingResult,
    break_on_horiz_cycle_errors: bool,
    cycles: u64,
    max_cycles: u64,
) -> (r: FrameControl)
    ensures
        r == frame_control_spec(timing, break_on_horiz_cycle_errors, cycles, max_cycles),
{
    if break_on_horiz_cycle_errors && timing.horiz_cycle_err {
        FrameControl::Pause(PauseReason::HorizCycleErr)
    } else if timing.should_render {
        FrameControl::Frame
    } else if cycles >= max_cycles {
        FrameControl::Pause(PauseReason::FrameTimeout)
    } else {
        FrameControl::Continue
    }
}

/// How a frame run ended.
#[derive(Clone, Copy, Debug, PartialEq, Eq, Structural)]
pub struct FrameOutcome {
    /// Why the run paused; `None` when a frame was completed.
    pub reason: Option<PauseReason>,
    /// Cycles executed.
    pub cycles: u64,
    /// What the raster interpreter reported for the last cycle, if any ran.
    pub last: Option<TimingResult>,
}

/// Runs cycles until the raster interpreter asks for a frame to be shown, or
/// a pause: a breakpoint on the queued address (checked before each cycle), a
/// horizontal timing error when those break, or `max_cycles` cycles without a
/// frame. The pause reason is also recorded in `run_control`.
pub fn run_frame(
    cpu: &mut Cpu,
    vga: &mut Vga,
    watches: &mut WatchesPanel,
    debugger: &Debugger,
    run_control: &mut RunControl,
    max_cycles: u64,
) -> (r: FrameOutcome)
    requires
        old(cpu).wf(),
        old(vga).wf(),
    ensures
        final(cpu).wf(),
        final(cpu).rom == old(cpu).rom,
        final(cpu).input == old(cpu).input,
        final(vga).wf(),
        final(vga).same_config(old(vga)),
        final(watches).watches@ == old(watches).watches@,
        final(run_control).break_on_horiz_cycle_errors == old(run_control).break_on_horiz_cycle_errors,
        final(run_control).paused == match r.reason {
            Some(reason) => Some(reason),
            None => old(run_control).paused,
        },
        // A breakpoint on the queued address stops the run before any cycle.
        debugger.should_break_spec(old(cpu).queued_pc) ==> {
            &&& r.reason == Some(PauseReason::Breakpoint)
            &&& r.cycles == 0
            &&& r.last is None
            &&& final(cpu)@ == old(cpu)@
            &&& final(watches).log@ == old(watches).log@
        },
        // Otherwise at least one cycle runs, and no more than `max_cycles`
        // (one when that is 0).
        !debugger.should_break_spec(old(cpu).queued_pc) ==> r.cycles >= 1,
        r.cycles <= if max_cycles == 0 { 1 } else { max_cycles },
        r.last is None <==> r.cycles == 0,
        // The run stops on a breakpoint exactly when one holds the queued
        // address after a cycle that went on, or before the first cycle.
        r.reason == Some(PauseReason::Breakpoint) <==> debugger.should_break_spec(
            final(cpu).queued_pc,
        ) && match r.last {
            None => true,
            Some(t) => frame_control_spec(
                t,
                old(run_control).break_on_horiz_cycle_errors,
                r.cycles,
                max_cycles,
            ) == FrameControl::Continue,
        },
        // Any other end is what the last cycle's decision said.
        r.reason != Some(PauseReason::Breakpoint) ==> match r.last {
            None => false,
            Some(t) => match frame_control_spec(
                t,
                old(run_control).break_on_horiz_cycle_errors,
                r.cycles,
                max_cycles,
            ) {
                FrameControl::Continue => false,
                FrameControl::Frame => r.reason is None,
                FrameControl::Pause(reason) => r.reason == Some(reason),
            },
        },
{
    let mut cycles: u64 = 0;
    let mut last: Option<TimingResult> = None;
    loop
        invariant
            cycles == 0 || cycles < max_cycles,
            last is None <==> cycles == 0,
            cycles == 0 ==> cpu@ == old(cpu)@ && watches.log@ == old(watches).log@,
            debugger.should_break_spec(old(cpu).queued_pc) ==> cycles == 0,
            match last {
                None => true,
                Some(t) => frame_control_spec(
                    t,
                    run_control.break_on_horiz_cycle_errors,
                    cycles,
                    max_cycles,
                ) == FrameControl::Continue,
            },
            cpu.wf(),
            cpu.rom == old(cpu).rom,
            cpu.input == old(cpu).input,
            vga.wf(),
            vga.same_config(old(vga)),
            watches.watches@ == old(watches).watches@,
            *run_control == *old(run_control),
        decreases max_cycles - cycles,
    {
        if debugger.should_break(cpu.queued_pc) {
            run_control.pause(PauseReason::Breakpoint);
            return FrameOutcome { reason: Some(PauseReason::Breakpoint), cycles, last };
        }
        clock_cpu(cpu, watches);
        let timing = vga.update(&cpu.reg);
        cycles += 1;
        last = Some(timing);
        match frame_control(timing, run_control.break_on_horiz_cycle_errors, cycles, max_cycles) {
            FrameControl::Continue => {},
            FrameControl::Frame => {
                return FrameOutcome { reason: None, cycles, last };
            },
            FrameControl::Pause(reason) => {
                run_control.pause(reason);
                return FrameOutcome { reason: Some(reason), cycles, last };
            },
        }
    }
}

} // verus!
