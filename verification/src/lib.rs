//! A minimal 32-bit x86 interpreter: a 1 MiB byte-addressable memory, eight
//! general-purpose registers, a flags word and an instruction pointer, driven
//! by a fetch/decode/dispatch loop over a small opcode table.

pub mod emulator;
