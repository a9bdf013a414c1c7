//! A simulator and disassembler for ARMv6-M (Thumb) programs.
//!
//! The library decodes Thumb instructions, renders them as text, parses the
//! ELF images that hold them and executes them on a model of a Cortex-M0
//! class processor.
pub mod thumb;
pub mod binutils;
pub mod dwarf;
pub mod system;
pub mod ui;
pub mod elf;
