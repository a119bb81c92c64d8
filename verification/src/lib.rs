//! A CHIP-8 virtual machine: an instruction decoder and the engine that
//! fetches, decodes and executes a program one instruction at a time.
pub mod instructions;
pub mod text;
pub mod vm;
