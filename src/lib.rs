//! Cycle-accurate model of a minimal 8-bit computer: instruction codec,
//! single-cycle pipelined execution engine with reversible stepping, and a
//! raster timing interpreter driven by the output register.
pub mod cpu;
pub mod debugger;
pub mod disasm;
pub mod isa;
pub mod symbols;
pub mod vga;
