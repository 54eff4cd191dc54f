//! The ModR/M byte of an instruction, decoded into its three bit fields plus
//! the optional SIB byte and displacement that follow it.

use vstd::prelude::*;

verus! {

/// A decoded ModR/M byte.
///
/// `mode` holds bits 7:6, `reg` bits 5:3 and `rm` bits 2:0 of the byte. The
/// `reg` field is overloaded by the instruction set: most instructions read it
/// as a register index, while the group opcodes read it as an opcode
/// extension; the two accessors below name the two intentions.
///
/// The displacement is stored as a single 32-bit value. When the addressing
/// mode carries an 8-bit displacement it is sign-extended into `disp`, so that
/// effective-address arithmetic is uniformly 32-bit and modular.
#[derive(Clone, Copy, Debug, PartialEq, Eq, Structural)]
pub struct ModRM {
    pub mode: u8,
    pub reg: u8,
    pub rm: u8,
    pub sib: u8,
    pub disp: u32,
}

impl ModRM {
    /// The three bit fields fit in their widths: 2 bits of `mode`, 3 of `reg`
    /// and 3 of `rm`.
    pub open spec fn wf(self) -> bool {
        &&& self.mode < 4
        &&& self.reg < 8
        &&& self.rm < 8
    }

    pub fn new() -> (r: ModRM)
        ensures
            r == (ModRM { mode: 0, reg: 0, rm: 0, sib: 0, disp: 0 }),
    {
        ModRM { mode: 0, reg: 0, rm: 0, sib: 0, disp: 0 }
    }

    /// The `reg` field read as an opcode extension (group opcodes).
    pub fn get_opecode(&self) -> (r: u8)
        ensures
            r == self.reg,
    {
        self.reg
    }

    /// The `reg` field read as a register index.
    pub fn get_reg_index(&self) -> (r: u8)
        ensures
            r == self.reg,
    {
        self.reg
    }

    /// The stored displacement reinterpreted as the 8-bit signed value it was
    /// decoded from.
    pub fn get_disp8(&self) -> (r: i8)
        ensures
            r as int == if self.disp % 0x100 < 0x80 {
                (self.disp % 0x100) as int
            } else {
                self.disp % 0x100 - 0x100
            },
    {
        let low: u32 = self.disp % 0x100;
        if low < 0x80 {
            low as i8
        } else {
            (low as i32 - 0x100) as i8
        }
    }

    /// The displacement as the full 32-bit quantity.
    pub fn get_disp32(&self) -> (r: u32)
        ensures
            r == self.disp,
    {
        self.disp
    }
}

} // verus!
