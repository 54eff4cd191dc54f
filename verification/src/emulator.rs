//! The CPU: registers, flags, instruction pointer and linear memory, the
//! fetch helpers and stack primitives layered on them, and the instruction
//! decode/dispatch loop with the x86 semantics of the supported opcodes.

pub mod io;
pub mod modrm;

use vstd::prelude::*;

use self::modrm::ModRM;

verus! {

/// Size of the linear memory in bytes (1 MiB).
pub const MEMORY_SIZE: usize = 1024 * 1024;

/// Bit masks of the four meaningful bits of the flags word.
pub const CARRY_FLAG: u32 = 0x1;
pub const ZERO_FLAG: u32 = 0x40;
pub const SIGN_FLAG: u32 = 0x80;
pub const OVERFLOW_FLAG: u32 = 0x800;

/// Reasons the interpreter refuses to continue: an opcode outside the
/// supported table, an addressing mode or group sub-opcode that is not
/// implemented, or an access that would fall outside the memory buffer
/// (the payload is the address, or the stack pointer for stack operations).
#[derive(Clone, Copy, Debug, PartialEq, Eq, Structural)]
pub enum EmuError {
    NotImplementedOpcode(u8),
    NotImplementedModRM(u8, u8),
    NotImplementedSubOpcode(u8, u8),
    OutOfRangeAccess(u32),
}

/// The mathematical state of the CPU: the eight general registers in
/// canonical order (EAX, ECX, EDX, EBX, ESP, EBP, ESI, EDI), the flags word,
/// the memory image and the instruction pointer.
#[verifier::ext_equal]
pub ghost struct EmuState {
    pub regs: Seq<u32>,
    pub eflags: u32,
    pub mem: Seq<u8>,
    pub eip: u32,
}

impl EmuState {
    pub open spec fn wf(self) -> bool {
        &&& self.regs.len() == 8
        &&& self.mem.len() == MEMORY_SIZE
    }

    /// The stack pointer, register 4.
    pub open spec fn esp(self) -> u32 {
        self.regs[4]
    }
}

/// 32-bit modular addition.
pub open spec fn add32(a: u32, b: u32) -> u32 {
    vstd::wrapping::u32_specs::wrapping_add(a, b)
}

/// A byte sign-extended to 32 bits.
pub open spec fn sext8(b: u8) -> u32 {
    if b < 0x80 {
        b as u32
    } else {
        (b + 0xFFFF_FF00) as u32
    }
}

/// The 32-bit word stored little-endian at `a`: byte `a + i` contributes
/// bits `8 * i` to `8 * i + 7`.
pub open spec fn le32_at(m: Seq<u8>, a: int) -> u32 {
    (m[a] as u32) | ((m[a + 1] as u32) << 8) | ((m[a + 2] as u32) << 16) | ((m[a + 3] as u32)
        << 24)
}

/// Byte `i` of the little-endian encoding of `v`.
pub open spec fn byte_of(v: u32, i: int) -> u8 {
    if i == 0 {
        (v & 0xFF) as u8
    } else if i == 1 {
        ((v >> 8) & 0xFF) as u8
    } else if i == 2 {
        ((v >> 16) & 0xFF) as u8
    } else {
        ((v >> 24) & 0xFF) as u8
    }
}

/// `m` with the four bytes of `v` stored little-endian at `a`.
pub open spec fn store32(m: Seq<u8>, a: int, v: u32) -> Seq<u8> {
    m.update(a, byte_of(v, 0)).update(a + 1, byte_of(v, 1)).update(a + 2, byte_of(v, 2)).update(
        a + 3,
        byte_of(v, 3),
    )
}

/// The low 32 bits of a 64-bit value.
pub open spec fn low32(r: u64) -> u32 {
    (r & 0xFFFF_FFFF) as u32
}

/// The 64-bit wrapping difference `v1 - v2` of two 32-bit operands. Its low
/// 32 bits are the x86 result of the subtraction; its high bits are all ones
/// exactly when the subtraction borrows.
pub open spec fn sub64(v1: u32, v2: u32) -> u64 {
    vstd::wrapping::u64_specs::wrapping_sub(v1 as u64, v2 as u64)
}

/// Whether the flag selected by `mask` is set in `f`.
pub open spec fn flag_set(f: u32, mask: u32) -> bool {
    f & mask != 0
}

/// `f` with the flag selected by `mask` forced to `b`.
pub open spec fn with_flag(f: u32, mask: u32, b: bool) -> u32 {
    if b {
        f | mask
    } else {
        f & !mask
    }
}

/// The flags word after a subtraction-like operation on `v1` and `v2` whose
/// 64-bit wrapping difference is `result`: CF is any borrow above bit 31, ZF
/// the low 32 bits being zero, SF bit 31 of the result, OF signed overflow
/// (the operands differed in sign and the result's sign matches `v2`'s).
/// Bits other than CF, ZF, SF and OF are preserved.
pub open spec fn eflags_after_sub(f: u32, v1: u32, v2: u32, result: u64) -> u32 {
    let cf = (result >> 32) != 0;
    let zf = (result & 0xFFFF_FFFF) == 0;
    let sf = ((result >> 31) & 1) == 1;
    let of = (((v1 >> 31) == 1) != ((v2 >> 31) == 1)) && (((v1 >> 31) == 1) != sf);
    with_flag(
        with_flag(with_flag(with_flag(f, CARRY_FLAG, cf), ZERO_FLAG, zf), SIGN_FLAG, sf),
        OVERFLOW_FLAG,
        of,
    )
}

/// Whether a 32-bit push fits: the stack pointer leaves room for four bytes
/// below it, inside the memory.
pub open spec fn push_ok(s: EmuState) -> bool {
    4 <= s.esp() && s.esp() <= MEMORY_SIZE as u32
}

/// Whether a 32-bit pop fits: the four bytes at the stack pointer lie inside
/// the memory.
pub open spec fn pop_ok(s: EmuState) -> bool {
    s.esp() + 4 <= MEMORY_SIZE
}

/// The state after pushing `value`: ESP drops by four and the value is
/// stored little-endian at the new ESP.
pub open spec fn spec_push32(s: EmuState, value: u32) -> EmuState {
    EmuState {
        regs: s.regs.update(4, (s.esp() - 4) as u32),
        mem: store32(s.mem, s.esp() - 4, value),
        ..s
    }
}

/// The state after popping, and the popped word: the word at ESP is read and
/// ESP rises by four.
pub open spec fn spec_pop32(s: EmuState) -> (EmuState, u32) {
    (EmuState { regs: s.regs.update(4, (s.esp() + 4) as u32), ..s }, le32_at(s.mem, s.esp() as int))
}

/// The ModR/M byte, the optional SIB byte and the optional displacement
/// decoded at `s.eip`, with the state advanced past them. Decoding fails only
/// when a byte it needs lies outside the memory.
pub open spec fn spec_parse_modrm(s: EmuState) -> Result<(ModRM, EmuState), EmuError> {
    if s.eip >= MEMORY_SIZE as u32 {
        Err(EmuError::OutOfRangeAccess(s.eip))
    } else {
        let code = s.mem[s.eip as int];
        spec_parse_sib(
            EmuState { eip: add32(s.eip, 1), ..s },
            (code & 0xC0) >> 6,
            (code & 0x38) >> 3,
            code & 0x07,
        )
    }
}

/// The SIB stage of ModR/M decoding: present exactly when the addressing
/// mode is memory (`mode != 3`) and `rm` selects it.
pub open spec fn spec_parse_sib(s: EmuState, mode: u8, reg: u8, rm: u8) -> Result<
    (ModRM, EmuState),
    EmuError,
> {
    if mode != 3 && rm == 4 {
        if s.eip >= MEMORY_SIZE as u32 {
            Err(EmuError::OutOfRangeAccess(s.eip))
        } else {
            spec_parse_disp(
                EmuState { eip: add32(s.eip, 1), ..s },
                mode,
                reg,
                rm,
                s.mem[s.eip as int],
            )
        }
    } else {
        spec_parse_disp(s, mode, reg, rm, 0)
    }
}

/// The displacement stage of ModR/M decoding: a 32-bit displacement for
/// `mod == 2` and the absolute form `mod == 0, rm == 5`, a sign-extended
/// 8-bit displacement for `mod == 1`, none otherwise.
pub open spec fn spec_parse_disp(s: EmuState, mode: u8, reg: u8, rm: u8, sib: u8) -> Result<
    (ModRM, EmuState),
    EmuError,
> {
    if (mode == 0 && rm == 5) || mode == 2 {
        if s.eip + 3 < MEMORY_SIZE {
            Ok(
                (
                    ModRM { mode, reg, rm, sib, disp: le32_at(s.mem, s.eip as int) },
                    EmuState { eip: add32(s.eip, 4), ..s },
                ),
            )
        } else {
            Err(EmuError::OutOfRangeAccess(s.eip))
        }
    } else if mode == 1 {
        if s.eip < MEMORY_SIZE as u32 {
            Ok(
                (
                    ModRM { mode, reg, rm, sib, disp: sext8(s.mem[s.eip as int]) },
                    EmuState { eip: add32(s.eip, 1), ..s },
                ),
            )
        } else {
            Err(EmuError::OutOfRangeAccess(s.eip))
        }
    } else {
        Ok((ModRM { mode, reg, rm, sib, disp: 0 }, s))
    }
}

/// The effective address selected by a memory-form ModR/M: the absolute
/// 32-bit displacement for `mod == 0, rm == 5`, the bare register for the
/// other `mod == 0` forms, register plus displacement (32-bit modular) for
/// `mod == 1` and `mod == 2`. The SIB forms (`rm == 4`) and the register
/// form (`mod == 3`) have no effective address.
pub open spec fn spec_calc_memory_address(s: EmuState, m: ModRM) -> Result<u32, EmuError> {
    if m.mode == 0 {
        if m.rm == 4 {
            Err(EmuError::NotImplementedModRM(0, 4))
        } else if m.rm == 5 {
            Ok(m.disp)
        } else {
            Ok(s.regs[m.rm as int])
        }
    } else if m.mode == 1 || m.mode == 2 {
        if m.rm == 4 {
            Err(EmuError::NotImplementedModRM(m.mode, 4))
        } else {
            Ok(add32(s.regs[m.rm as int], m.disp))
        }
    } else {
        Err(EmuError::NotImplementedModRM(m.mode, m.rm))
    }
}

/// The `r/m32` operand: register `rm` in the register form, otherwise the
/// word at the effective address, which must lie inside the memory.
pub open spec fn spec_get_rm32(s: EmuState, m: ModRM) -> Result<u32, EmuError> {
    if m.mode == 3 {
        Ok(s.regs[m.rm as int])
    } else {
        match spec_calc_memory_address(s, m) {
            Err(e) => Err(e),
            Ok(address) => if address + 3 < MEMORY_SIZE {
                Ok(le32_at(s.mem, address as int))
            } else {
                Err(EmuError::OutOfRangeAccess(address))
            },
        }
    }
}

/// Writing the `r/m32` operand, symmetric to `spec_get_rm32`.
pub open spec fn spec_set_rm32(s: EmuState, m: ModRM, value: u32) -> Result<EmuState, EmuError> {
    if m.mode == 3 {
        Ok(EmuState { regs: s.regs.update(m.rm as int, value), ..s })
    } else {
        match spec_calc_memory_address(s, m) {
            Err(e) => Err(e),
            Ok(address) => if address + 3 < MEMORY_SIZE {
                Ok(EmuState { mem: store32(s.mem, address as int, value), ..s })
            } else {
                Err(EmuError::OutOfRangeAccess(address))
            },
        }
    }
}

/// MOV r32, imm32 (0xB8+r): register `r` receives the following word and
/// EIP advances by five.
pub open spec fn spec_mov_r32_imm32(s: EmuState) -> Result<EmuState, EmuError> {
    if s.eip + 4 < MEMORY_SIZE {
        Ok(
            EmuState {
                regs: s.regs.update(
                    s.mem[s.eip as int] - 0xB8,
                    le32_at(s.mem, s.eip + 1),
                ),
                eip: add32(s.eip, 5),
                ..s
            },
        )
    } else {
        Err(EmuError::OutOfRangeAccess(add32(s.eip, 1)))
    }
}

/// MOV r/m32, imm32 (0xC7): the word following the ModR/M encoding is
/// written to the `r/m32` operand.
pub open spec fn spec_mov_rm32_imm32(s: EmuState) -> Result<EmuState, EmuError> {
    match spec_parse_modrm(EmuState { eip: add32(s.eip, 1), ..s }) {
        Err(e) => Err(e),
        Ok((m, s1)) => if s1.eip + 3 < MEMORY_SIZE {
            spec_set_rm32(
                EmuState { eip: add32(s1.eip, 4), ..s1 },
                m,
                le32_at(s1.mem, s1.eip as int),
            )
        } else {
            Err(EmuError::OutOfRangeAccess(s1.eip))
        },
    }
}

/// MOV r/m32, r32 (0x89).
pub open spec fn spec_mov_rm32_r32(s: EmuState) -> Result<EmuState, EmuError> {
    match spec_parse_modrm(EmuState { eip: add32(s.eip, 1), ..s }) {
        Err(e) => Err(e),
        Ok((m, s1)) => spec_set_rm32(s1, m, s1.regs[m.reg as int]),
    }
}

/// MOV r32, r/m32 (0x8B).
pub open spec fn spec_mov_r32_rm32(s: EmuState) -> Result<EmuState, EmuError> {
    match spec_parse_modrm(EmuState { eip: add32(s.eip, 1), ..s }) {
        Err(e) => Err(e),
        Ok((m, s1)) => match spec_get_rm32(s1, m) {
            Err(e) => Err(e),
            Ok(v) => Ok(EmuState { regs: s1.regs.update(m.reg as int, v), ..s1 }),
        },
    }
}

/// ADD r/m32, r32 (0x01): 32-bit modular sum, no flag update.
pub open spec fn spec_add_rm32_r32(s: EmuState) -> Result<EmuState, EmuError> {
    match spec_parse_modrm(EmuState { eip: add32(s.eip, 1), ..s }) {
        Err(e) => Err(e),
        Ok((m, s1)) => match spec_get_rm32(s1, m) {
            Err(e) => Err(e),
            Ok(rm32) => spec_set_rm32(s1, m, add32(rm32, s1.regs[m.reg as int])),
        },
    }
}

/// CMP r32, r/m32 (0x3B): the flags of `r32 - r/m32`, nothing written back.
pub open spec fn spec_cmp_r32_rm32(s: EmuState) -> Result<EmuState, EmuError> {
    match spec_parse_modrm(EmuState { eip: add32(s.eip, 1), ..s }) {
        Err(e) => Err(e),
        Ok((m, s1)) => match spec_get_rm32(s1, m) {
            Err(e) => Err(e),
            Ok(rm32) => {
                let r32 = s1.regs[m.reg as int];
                Ok(
                    EmuState {
                        eflags: eflags_after_sub(s1.eflags, r32, rm32, sub64(r32, rm32)),
                        ..s1
                    },
                )
            },
        },
    }
}

/// ADD r/m32, imm8 (0x83 /0): the sign-extended immediate is added
/// modularly, without a flag update. `s` stands just past the ModR/M
/// encoding, at the immediate.
pub open spec fn spec_add_rm32_imm8(s: EmuState, m: ModRM) -> Result<EmuState, EmuError> {
    match spec_get_rm32(s, m) {
        Err(e) => Err(e),
        Ok(rm32) => if s.eip < MEMORY_SIZE as u32 {
            spec_set_rm32(
                EmuState { eip: add32(s.eip, 1), ..s },
                m,
                add32(rm32, sext8(s.mem[s.eip as int])),
            )
        } else {
            Err(EmuError::OutOfRangeAccess(s.eip))
        },
    }
}

/// SUB r/m32, imm8 (0x83 /5): the low 32 bits of the 64-bit wrapping
/// difference are written back and the flags updated from it.
pub open spec fn spec_sub_rm32_imm8(s: EmuState, m: ModRM) -> Result<EmuState, EmuError> {
    match spec_get_rm32(s, m) {
        Err(e) => Err(e),
        Ok(rm32) => if s.eip < MEMORY_SIZE as u32 {
            let imm = sext8(s.mem[s.eip as int]);
            let result = sub64(rm32, imm);
            match spec_set_rm32(EmuState { eip: add32(s.eip, 1), ..s }, m, low32(result)) {
                Err(e) => Err(e),
                Ok(s1) => Ok(
                    EmuState { eflags: eflags_after_sub(s1.eflags, rm32, imm, result), ..s1 },
                ),
            }
        } else {
            Err(EmuError::OutOfRangeAccess(s.eip))
        },
    }
}

/// CMP r/m32, imm8 (0x83 /7): as SUB but without the write-back.
pub open spec fn spec_cmp_rm32_imm8(s: EmuState, m: ModRM) -> Result<EmuState, EmuError> {
    match spec_get_rm32(s, m) {
        Err(e) => Err(e),
        Ok(rm32) => if s.eip < MEMORY_SIZE as u32 {
            let imm = sext8(s.mem[s.eip as int]);
            Ok(
                EmuState {
                    eflags: eflags_after_sub(s.eflags, rm32, imm, sub64(rm32, imm)),
                    eip: add32(s.eip, 1),
                    ..s
                },
            )
        } else {
            Err(EmuError::OutOfRangeAccess(s.eip))
        },
    }
}

/// The 0x83 group: the ModR/M `reg` field selects ADD, SUB or CMP with a
/// sign-extended 8-bit immediate.
pub open spec fn spec_code_83(s: EmuState) -> Result<EmuState, EmuError> {
    match spec_parse_modrm(EmuState { eip: add32(s.eip, 1), ..s }) {
        Err(e) => Err(e),
        Ok((m, s1)) => if m.reg == 0 {
            spec_add_rm32_imm8(s1, m)
        } else if m.reg == 5 {
            spec_sub_rm32_imm8(s1, m)
        } else if m.reg == 7 {
            spec_cmp_rm32_imm8(s1, m)
        } else {
            Err(EmuError::NotImplementedSubOpcode(0x83, m.reg))
        },
    }
}

/// INC r/m32 (0xFF /0): 32-bit modular increment, no flag update.
pub open spec fn spec_inc_rm32(s: EmuState, m: ModRM) -> Result<EmuState, EmuError> {
    match spec_get_rm32(s, m) {
        Err(e) => Err(e),
        Ok(v) => spec_set_rm32(s, m, add32(v, 1)),
    }
}

/// The 0xFF group: only INC is implemented.
pub open spec fn spec_code_ff(s: EmuState) -> Result<EmuState, EmuError> {
    match spec_parse_modrm(EmuState { eip: add32(s.eip, 1), ..s }) {
        Err(e) => Err(e),
        Ok((m, s1)) => if m.reg == 0 {
            spec_inc_rm32(s1, m)
        } else {
            Err(EmuError::NotImplementedSubOpcode(0xFF, m.reg))
        },
    }
}

/// PUSH r32 (0x50+r).
pub open spec fn spec_push_r32(s: EmuState) -> Result<EmuState, EmuError> {
    let value = s.regs[s.mem[s.eip as int] - 0x50];
    if push_ok(s) {
        Ok(EmuState { eip: add32(s.eip, 1), ..spec_push32(s, value) })
    } else {
        Err(EmuError::OutOfRangeAccess(s.esp()))
    }
}

/// PUSH imm8 (0x6A): the immediate byte is zero-extended to 32 bits.
pub open spec fn spec_push_imm8(s: EmuState) -> Result<EmuState, EmuError> {
    if s.eip + 1 < MEMORY_SIZE {
        if push_ok(s) {
            Ok(EmuState { eip: add32(s.eip, 2), ..spec_push32(s, s.mem[s.eip + 1] as u32) })
        } else {
            Err(EmuError::OutOfRangeAccess(s.esp()))
        }
    } else {
        Err(EmuError::OutOfRangeAccess(add32(s.eip, 1)))
    }
}

/// PUSH imm32 (0x68).
pub open spec fn spec_push_imm32(s: EmuState) -> Result<EmuState, EmuError> {
    if s.eip + 4 < MEMORY_SIZE {
        if push_ok(s) {
            Ok(EmuState { eip: add32(s.eip, 5), ..spec_push32(s, le32_at(s.mem, s.eip + 1)) })
        } else {
            Err(EmuError::OutOfRangeAccess(s.esp()))
        }
    } else {
        Err(EmuError::OutOfRangeAccess(add32(s.eip, 1)))
    }
}

/// POP r32 (0x58+r).
pub open spec fn spec_pop_r32(s: EmuState) -> Result<EmuState, EmuError> {
    if pop_ok(s) {
        let (s1, value) = spec_pop32(s);
        Ok(
            EmuState {
                regs: s1.regs.update(s.mem[s.eip as int] - 0x58, value),
                eip: add32(s.eip, 1),
                ..s1
            },
        )
    } else {
        Err(EmuError::OutOfRangeAccess(s.esp()))
    }
}

/// CALL rel32 (0xE8): the address of the next instruction is pushed and EIP
/// moves by the instruction length plus the displacement, 32-bit modular.
pub open spec fn spec_call_rel32(s: EmuState) -> Result<EmuState, EmuError> {
    if s.eip + 4 < MEMORY_SIZE {
        if push_ok(s) {
            Ok(
                EmuState {
                    eip: add32(add32(s.eip, 5), le32_at(s.mem, s.eip + 1)),
                    ..spec_push32(s, add32(s.eip, 5))
                },
            )
        } else {
            Err(EmuError::OutOfRangeAccess(s.esp()))
        }
    } else {
        Err(EmuError::OutOfRangeAccess(add32(s.eip, 1)))
    }
}

/// RET (0xC3): EIP is popped from the stack.
pub open spec fn spec_ret(s: EmuState) -> Result<EmuState, EmuError> {
    if pop_ok(s) {
        let (s1, value) = spec_pop32(s);
        Ok(EmuState { eip: value, ..s1 })
    } else {
        Err(EmuError::OutOfRangeAccess(s.esp()))
    }
}

/// LEAVE (0xC9): ESP takes EBP's value, then EBP is popped.
pub open spec fn spec_leave(s: EmuState) -> Result<EmuState, EmuError> {
    let ebp = s.regs[5];
    if ebp + 4 <= MEMORY_SIZE {
        Ok(
            EmuState {
                regs: s.regs.update(4, add32(ebp, 4)).update(5, le32_at(s.mem, ebp as int)),
                eip: add32(s.eip, 1),
                ..s
            },
        )
    } else {
        Err(EmuError::OutOfRangeAccess(ebp))
    }
}

/// JMP rel8 (0xEB): EIP moves by the instruction length plus the
/// sign-extended displacement, 32-bit modular.
pub open spec fn spec_short_jump(s: EmuState) -> Result<EmuState, EmuError> {
    if s.eip + 1 < MEMORY_SIZE {
        Ok(EmuState { eip: add32(s.eip, add32(2, sext8(s.mem[s.eip + 1]))), ..s })
    } else {
        Err(EmuError::OutOfRangeAccess(add32(s.eip, 1)))
    }
}

/// JMP rel32 (0xE9).
pub open spec fn spec_near_jump(s: EmuState) -> Result<EmuState, EmuError> {
    if s.eip + 4 < MEMORY_SIZE {
        Ok(EmuState { eip: add32(s.eip, add32(5, le32_at(s.mem, s.eip + 1))), ..s })
    } else {
        Err(EmuError::OutOfRangeAccess(add32(s.eip, 1)))
    }
}

/// A conditional short jump: when the predicate holds, EIP moves by two plus
/// the sign-extended displacement byte; otherwise it falls through by two.
/// The displacement byte is read only on a taken branch.
pub open spec fn spec_jcc(s: EmuState, cond: bool) -> Result<EmuState, EmuError> {
    if cond {
        if s.eip + 1 < MEMORY_SIZE {
            Ok(EmuState { eip: add32(s.eip, add32(2, sext8(s.mem[s.eip + 1]))), ..s })
        } else {
            Err(EmuError::OutOfRangeAccess(add32(s.eip, 1)))
        }
    } else {
        Ok(EmuState { eip: add32(s.eip, 2), ..s })
    }
}

/// The registers, memory and flags of `s1` are those of `s0`: a refused
/// instruction may have consumed code bytes, moving EIP, but has touched
/// nothing else.
pub open spec fn same_except_eip(s0: EmuState, s1: EmuState) -> bool {
    &&& s1.regs == s0.regs
    &&& s1.mem == s0.mem
    &&& s1.eflags == s0.eflags
}

/// Whether the opcode byte has a handler in the dispatch table.
pub open spec fn opcode_implemented(code: u8) -> bool {
    ||| code == 0x01
    ||| code == 0x3B
    ||| 0x50 <= code <= 0x5F
    ||| code == 0x68
    ||| code == 0x6A
    ||| code == 0x70
    ||| code == 0x71
    ||| code == 0x72
    ||| code == 0x73
    ||| code == 0x74
    ||| code == 0x75
    ||| code == 0x78
    ||| code == 0x79
    ||| code == 0x7C
    ||| code == 0x7E
    ||| code == 0x83
    ||| code == 0x89
    ||| code == 0x8B
    ||| 0xB8 <= code <= 0xBF
    ||| code == 0xC3
    ||| code == 0xC7
    ||| code == 0xC9
    ||| code == 0xE8
    ||| code == 0xE9
    ||| code == 0xEB
    ||| code == 0xFF
}

/// One step of the dispatch loop: the opcode byte at EIP selects the
/// instruction semantics; an opcode outside the table is refused.
pub open spec fn spec_step(s: EmuState) -> Result<EmuState, EmuError> {
    if s.eip < MEMORY_SIZE as u32 {
        let code = s.mem[s.eip as int];
        if code == 0x01 {
            spec_add_rm32_r32(s)
        } else if code == 0x3B {
            spec_cmp_r32_rm32(s)
        } else if 0x50 <= code && code <= 0x57 {
            spec_push_r32(s)
        } else if 0x58 <= code && code <= 0x5F {
            spec_pop_r32(s)
        } else if code == 0x68 {
            spec_push_imm32(s)
        } else if code == 0x6A {
            spec_push_imm8(s)
        } else if code == 0x70 {
            spec_jcc(s, flag_set(s.eflags, OVERFLOW_FLAG))
        } else if code == 0x71 {
            spec_jcc(s, !flag_set(s.eflags, OVERFLOW_FLAG))
        } else if code == 0x72 {
            spec_jcc(s, flag_set(s.eflags, CARRY_FLAG))
        } else if code == 0x73 {
            spec_jcc(s, !flag_set(s.eflags, CARRY_FLAG))
        } else if code == 0x74 {
            spec_jcc(s, flag_set(s.eflags, ZERO_FLAG))
        } else if code == 0x75 {
            spec_jcc(s, !flag_set(s.eflags, ZERO_FLAG))
        } else if code == 0x78 {
            spec_jcc(s, flag_set(s.eflags, SIGN_FLAG))
        } else if code == 0x79 {
            spec_jcc(s, !flag_set(s.eflags, SIGN_FLAG))
        } else if code == 0x7C {
            spec_jcc(s, flag_set(s.eflags, SIGN_FLAG) != flag_set(s.eflags, OVERFLOW_FLAG))
        } else if code == 0x7E {
            spec_jcc(
                s,
                flag_set(s.eflags, ZERO_FLAG) || (flag_set(s.eflags, SIGN_FLAG) != flag_set(
                    s.eflags,
                    OVERFLOW_FLAG,
                )),
            )
        } else if code == 0x83 {
            spec_code_83(s)
        } else if code == 0x89 {
            spec_mov_rm32_r32(s)
        } else if code == 0x8B {
            spec_mov_r32_rm32(s)
        } else if 0xB8 <= code && code <= 0xBF {
            spec_mov_r32_imm32(s)
        } else if code == 0xC3 {
            spec_ret(s)
        } else if code == 0xC7 {
            spec_mov_rm32_imm32(s)
        } else if code == 0xC9 {
            spec_leave(s)
        } else if code == 0xE8 {
            spec_call_rel32(s)
        } else if code == 0xE9 {
            spec_near_jump(s)
        } else if code == 0xEB {
            spec_short_jump(s)
        } else if code == 0xFF {
            spec_code_ff(s)
        } else {
            Err(EmuError::NotImplementedOpcode(code))
        }
    } else {
        Err(EmuError::OutOfRangeAccess(s.eip))
    }
}

/// The dispatch loop as a function of the starting state and a step budget:
/// execution stops with `true` when EIP leaves the memory or, after a step,
/// reaches zero; with `false` when the budget runs out first; and with the
/// step's error when an instruction is refused.
pub open spec fn spec_run(s: EmuState, fuel: nat) -> Result<(EmuState, bool), EmuError>
    decreases fuel,
{
    if s.eip >= MEMORY_SIZE as u32 {
        Ok((s, true))
    } else if fuel == 0 {
        Ok((s, false))
    } else {
        match spec_step(s) {
            Err(e) => Err(e),
            Ok(s1) => if s1.eip == 0 {
                Ok((s1, true))
            } else {
                spec_run(s1, (fuel - 1) as nat)
            },
        }
    }
}

/// The CPU and its memory.
pub struct Emulator {
    registers: Vec<u32>,
    eflags: u32,
    pub memory: Vec<u8>,
    eip: u32,
}

impl View for Emulator {
    type V = EmuState;

    closed spec fn view(&self) -> EmuState {
        EmuState { regs: self.registers@, eflags: self.eflags, mem: self.memory@, eip: self.eip }
    }
}

impl Emulator {
    /// The register file has its eight registers and the memory its full
    /// size.
    pub open spec fn wf(&self) -> bool {
        self@.wf()
    }

    /// A CPU with zeroed memory and registers except for the stack pointer,
    /// about to execute at `eip`.
    pub fn new(size: usize, eip: u32, esp: u32) -> (r: Emulator)
        requires
            size == MEMORY_SIZE,
        ensures
            r.wf(),
            r@.regs =~= seq![0u32, 0, 0, 0, esp, 0, 0, 0],
            r@.eflags == 0,
            r@.mem =~= Seq::new(MEMORY_SIZE as nat, |i: int| 0u8),
            r@.eip == eip,
    {
        let memory: Vec<u8> = vec![0; size];
        let mut registers: Vec<u32> = vec![0; 8];
        registers[4] = esp;
        let emu = Emulator { registers, eflags: 0, memory, eip };
        proof {
            assert forall|i: int| 0 <= i < size implies emu@.mem[i] == 0u8 by {
                assert(cloned(0u8, emu@.mem[i]));
            }
            assert forall|i: int| 0 <= i < 8 && i != 4 implies emu@.regs[i] == 0u32 by {
                assert(cloned(0u32, emu@.regs[i]));
            }
        }
        emu
    }

    /// Copies a program image verbatim into memory at the load address
    /// 0x7C00; everything else is left untouched.
    pub fn load_image(&mut self, image: &[u8])
        requires
            old(self).wf(),
            image@.len() <= 0x201,
        ensures
            final(self).wf(),
            final(self)@.mem.len() == old(self)@.mem.len(),
            forall|i: int|
                0 <= i < image@.len() ==> final(self)@.mem[0x7C00 + i] == image@[i],
            forall|i: int|
                0 <= i < MEMORY_SIZE && !(0x7C00 <= i < 0x7C00 + image@.len())
                    ==> final(self)@.mem[i] == old(self)@.mem[i],
            final(self)@.regs == old(self)@.regs,
            final(self)@.eflags == old(self)@.eflags,
            final(self)@.eip == old(self)@.eip,
    {
        let mut i: usize = 0;
        while i < image.len()
            invariant
                self.wf(),
                i <= image@.len(),
                image@.len() <= 0x201,
                self@.mem.len() == old(self)@.mem.len(),
                forall|j: int| 0 <= j < i ==> self@.mem[0x7C00 + j] == image@[j],
                forall|j: int|
                    0 <= j < MEMORY_SIZE && !(0x7C00 <= j < 0x7C00 + i)
                        ==> self@.mem[j] == old(self)@.mem[j],
                self@.regs == old(self)@.regs,
                self@.eflags == old(self)@.eflags,
                self@.eip == old(self)@.eip,
            decreases image@.len() - i,
        {
            self.memory[0x7C00 + i] = image[i];
            i = i + 1;
        }
    }

    /// The unsigned byte at offset `index` from the instruction pointer.
    pub fn get_code8(&self, index: i32) -> (r: u8)
        requires
            self.wf(),
            0 <= index,
            self@.eip + index < MEMORY_SIZE,
        ensures
            r == self@.mem[self@.eip + index],
    {
        self.memory[(self.eip + index as u32) as usize]
    }

    /// The byte at offset `index` reinterpreted as an 8-bit signed value.
    pub fn get_sign_code8(&self, index: i32) -> (r: i8)
        requires
            self.wf(),
            0 <= index,
            self@.eip + index < MEMORY_SIZE,
        ensures
            r as int == ({
                let b = self@.mem[self@.eip + index];
                if b < 0x80 {
                    b as int
                } else {
                    b - 0x100
                }
            }),
    {
        let b = self.get_code8(index);
        if b < 0x80 {
            b as i8
        } else {
            (b as i32 - 0x100) as i8
        }
    }

    /// The 32-bit word composed little-endian from the four bytes at offset
    /// `index` from the instruction pointer.
    pub fn get_code32(&self, index: i32) -> (r: u32)
        requires
            self.wf(),
            0 <= index,
            self@.eip + index + 3 < MEMORY_SIZE,
        ensures
            r == le32_at(self@.mem, self@.eip + index),
    {
        let b0 = self.get_code8(index) as u32;
        let b1 = self.get_code8(index + 1) as u32;
        let b2 = self.get_code8(index + 2) as u32;
        let b3 = self.get_code8(index + 3) as u32;
        b0 | (b1 << 8) | (b2 << 16) | (b3 << 24)
    }

    /// The word at offset `index` reinterpreted as a 32-bit signed value.
    pub fn get_sign_code32(&self, index: i32) -> (r: i32)
        requires
            self.wf(),
            0 <= index,
            self@.eip + index + 3 < MEMORY_SIZE,
        ensures
            r as int == ({
                let v = le32_at(self@.mem, self@.eip + index);
                if v < 0x8000_0000 {
                    v as int
                } else {
                    v - 0x1_0000_0000
                }
            }),
    {
        let v = self.get_code32(index);
        if v < 0x8000_0000 {
            v as i32
        } else {
            ((v as i64) - 0x1_0000_0000) as i32
        }
    }

    /// The byte at `address`, widened to 32 bits.
    pub fn get_memory8(&self, address: usize) -> (r: u32)
        requires
            self.wf(),
            address < MEMORY_SIZE,
        ensures
            r == self@.mem[address as int] as u32,
    {
        self.memory[address] as u32
    }

    /// The 32-bit word stored little-endian at `address`.
    pub fn get_memory32(&self, address: usize) -> (r: u32)
        requires
            self.wf(),
            address + 3 < MEMORY_SIZE,
        ensures
            r == le32_at(self@.mem, address as int),
    {
        let b0 = self.get_memory8(address);
        let b1 = self.get_memory8(address + 1);
        let b2 = self.get_memory8(address + 2);
        let b3 = self.get_memory8(address + 3);
        b0 | (b1 << 8) | (b2 << 16) | (b3 << 24)
    }

    /// Stores the low byte of `value` at `address`.
    pub fn set_memory8(&mut self, address: usize, value: u32)
        requires
            old(self).wf(),
            address < MEMORY_SIZE,
        ensures
            final(self).wf(),
            final(self)@.mem == old(self)@.mem.update(address as int, (value & 0xFF) as u8),
            final(self)@.regs == old(self)@.regs,
            final(self)@.eflags == old(self)@.eflags,
            final(self)@.eip == old(self)@.eip,
    {
        proof {
            assert(value & 0xFF < 0x100) by (bit_vector);
        }
        self.memory[address] = (value & 0xFF) as u8;
    }

    /// Stores `value` little-endian in the four bytes at `address`.
    pub fn set_memory32(&mut self, address: usize, value: u32)
        requires
            old(self).wf(),
            address + 3 < MEMORY_SIZE,
        ensures
            final(self).wf(),
            final(self)@.mem == store32(old(self)@.mem, address as int, value),
            final(self)@.regs == old(self)@.regs,
            final(self)@.eflags == old(self)@.eflags,
            final(self)@.eip == old(self)@.eip,
    {
        self.set_memory8(address, value);
        self.set_memory8(address + 1, value >> 8);
        self.set_memory8(address + 2, value >> 16);
        self.set_memory8(address + 3, value >> 24);
        proof {
            assert(final(self)@.mem =~= store32(old(self)@.mem, address as int, value));
        }
    }

    /// Register `index` of the canonical ordering.
    pub fn get_register32(&self, index: usize) -> (r: u32)
        requires
            self.wf(),
            index < 8,
        ensures
            r == self@.regs[index as int],
    {
        self.registers[index]
    }

    /// Overwrites register `index`.
    pub fn set_register32(&mut self, index: usize, value: u32)
        requires
            old(self).wf(),
            index < 8,
        ensures
            final(self).wf(),
            final(self)@.regs == old(self)@.regs.update(index as int, value),
            final(self)@.mem == old(self)@.mem,
            final(self)@.eflags == old(self)@.eflags,
            final(self)@.eip == old(self)@.eip,
    {
        self.registers[index] = value;
    }

    /// The instruction pointer.
    pub fn get_eip(&self) -> (r: u32)
        ensures
            r == self@.eip,
    {
        self.eip
    }

    /// Decrements ESP by four and stores `value` at the new ESP.
    pub fn push32(&mut self, value: u32)
        requires
            old(self).wf(),
            push_ok(old(self)@),
        ensures
            final(self).wf(),
            final(self)@ == spec_push32(old(self)@, value),
    {
        let address = self.get_register32(4) - 4;
        self.set_register32(4, address);
        self.set_memory32(address as usize, value);
        proof {
            assert(final(self)@ =~= spec_push32(old(self)@, value));
        }
    }

    /// Reads the word at ESP, increments ESP by four and returns the word.
    pub fn pop32(&mut self) -> (r: u32)
        requires
            old(self).wf(),
            pop_ok(old(self)@),
        ensures
            final(self).wf(),
            final(self)@ == spec_pop32(old(self)@).0,
            r == spec_pop32(old(self)@).1,
    {
        let address = self.get_register32(4);
        let ret = self.get_memory32(address as usize);
        self.set_register32(4, address + 4);
        proof {
            assert(final(self)@ =~= spec_pop32(old(self)@).0);
        }
        ret
    }

    /// Whether the carry flag is set.
    pub fn is_carry(&self) -> (r: bool)
        ensures
            r == flag_set(self@.eflags, CARRY_FLAG),
    {
        (self.eflags & CARRY_FLAG) != 0
    }

    /// Whether the zero flag is set.
    pub fn is_zero(&self) -> (r: bool)
        ensures
            r == flag_set(self@.eflags, ZERO_FLAG),
    {
        (self.eflags & ZERO_FLAG) != 0
    }

    /// Whether the sign flag is set.
    pub fn is_sign(&self) -> (r: bool)
        ensures
            r == flag_set(self@.eflags, SIGN_FLAG),
    {
        (self.eflags & SIGN_FLAG) != 0
    }

    /// Whether the overflow flag is set.
    pub fn is_overflow(&self) -> (r: bool)
        ensures
            r == flag_set(self@.eflags, OVERFLOW_FLAG),
    {
        (self.eflags & OVERFLOW_FLAG) != 0
    }

    /// Forces the carry flag to `is_carry`.
    pub fn set_carry(&mut self, is_carry: bool)
        ensures
            final(self)@.eflags == with_flag(old(self)@.eflags, CARRY_FLAG, is_carry),
            final(self)@.regs == old(self)@.regs,
            final(self)@.mem == old(self)@.mem,
            final(self)@.eip == old(self)@.eip,
    {
        if is_carry {
            self.eflags = self.eflags | CARRY_FLAG;
        } else {
            self.eflags = self.eflags & !CARRY_FLAG;
        }
    }

    /// Forces the zero flag to `is_zero`.
    pub fn set_zero(&mut self, is_zero: bool)
        ensures
            final(self)@.eflags == with_flag(old(self)@.eflags, ZERO_FLAG, is_zero),
            final(self)@.regs == old(self)@.regs,
            final(self)@.mem == old(self)@.mem,
            final(self)@.eip == old(self)@.eip,
    {
        if is_zero {
            self.eflags = self.eflags | ZERO_FLAG;
        } else {
            self.eflags = self.eflags & !ZERO_FLAG;
        }
    }

    /// Forces the sign flag to `is_sign`.
    pub fn set_sign(&mut self, is_sign: bool)
        ensures
            final(self)@.eflags == with_flag(old(self)@.eflags, SIGN_FLAG, is_sign),
            final(self)@.regs == old(self)@.regs,
            final(self)@.mem == old(self)@.mem,
            final(self)@.eip == old(self)@.eip,
    {
        if is_sign {
            self.eflags = self.eflags | SIGN_FLAG;
        } else {
            self.eflags = self.eflags & !SIGN_FLAG;
        }
    }

    /// Forces the overflow flag to `is_overflow`.
    pub fn set_overflow(&mut self, is_overflow: bool)
        ensures
            final(self)@.eflags == with_flag(old(self)@.eflags, OVERFLOW_FLAG, is_overflow),
            final(self)@.regs == old(self)@.regs,
            final(self)@.mem == old(self)@.mem,
            final(self)@.eip == old(self)@.eip,
    {
        if is_overflow {
            self.eflags = self.eflags | OVERFLOW_FLAG;
        } else {
            self.eflags = self.eflags & !OVERFLOW_FLAG;
        }
    }

    /// The canonical flag update of every subtraction-like operation:
    /// `result` is the 64-bit wrapping difference of `v1` and `v2`, and CF,
    /// ZF, SF and OF are set from it as `eflags_after_sub` states.
    pub fn update_eflags_sub(&mut self, v1: u32, v2: u32, result: u64)
        ensures
            final(self)@.eflags == eflags_after_sub(old(self)@.eflags, v1, v2, result),
            final(self)@.regs == old(self)@.regs,
            final(self)@.mem == old(self)@.mem,
            final(self)@.eip == old(self)@.eip,
    {
        let sign1 = (v1 >> 31) == 1;
        let sign2 = (v2 >> 31) == 1;
        let signr = ((result >> 31) & 1) == 1;

        self.set_carry((result >> 32) != 0);
        self.set_zero((result & 0xFFFF_FFFF) == 0);
        self.set_sign(signr);
        self.set_overflow(sign1 != sign2 && sign1 != signr);
    }
}

/// A byte sign-extended to 32 bits, as `sext8` states.
fn sign_extend8(b: u8) -> (r: u32)
    ensures
        r == sext8(b),
{
    if b < 0x80 {
        b as u32
    } else {
        (b as u32) + 0xFFFF_FF00
    }
}

impl Emulator {
    /// Reads the ModR/M byte at EIP, splits it into its three fields,
    /// consumes the SIB byte and the displacement that the addressing mode
    /// calls for, and leaves EIP on the next byte of the instruction.
    pub fn parse_modrm(&mut self) -> (r: Result<ModRM, EmuError>)
        requires
            old(self).wf(),
        ensures
            final(self).wf(),
            (match spec_parse_modrm(old(self)@) {
                Ok(p) => r == Ok::<ModRM, EmuError>(p.0) && final(self)@ == p.1 && p.0.wf(),
                Err(e) => r == Err::<ModRM, EmuError>(e) && same_except_eip(
                    old(self)@,
                    final(self)@,
                ),
            }),
    {
        if !(self.eip < MEMORY_SIZE as u32) {
            return Err(EmuError::OutOfRangeAccess(self.eip));
        }
        let code = self.get_code8(0);
        let mode = (code & 0xC0) >> 6;
        let reg = (code & 0x38) >> 3;
        let rm = code & 0x07;
        proof {
            assert(((code & 0xC0) >> 6) < 4 && ((code & 0x38) >> 3) < 8 && (code & 0x07) < 8)
                by (bit_vector);
        }
        self.eip = self.eip + 1;

        let mut sib: u8 = 0;
        if mode != 3 && rm == 4 {
            if !(self.eip < MEMORY_SIZE as u32) {
                return Err(EmuError::OutOfRangeAccess(self.eip));
            }
            sib = self.get_code8(0);
            self.eip = self.eip + 1;
        }

        let mut disp: u32 = 0;
        if (mode == 0 && rm == 5) || mode == 2 {
            if !((self.eip as usize) + 3 < MEMORY_SIZE) {
                return Err(EmuError::OutOfRangeAccess(self.eip));
            }
            disp = self.get_code32(0);
            self.eip = self.eip + 4;
        } else if mode == 1 {
            if !(self.eip < MEMORY_SIZE as u32) {
                return Err(EmuError::OutOfRangeAccess(self.eip));
            }
            let b = self.get_code8(0);
            disp = sign_extend8(b);
            self.eip = self.eip + 1;
        }
        Ok(ModRM { mode, reg, rm, sib, disp })
    }

    /// The effective address of a memory-form ModR/M, as
    /// `spec_calc_memory_address` states.
    pub fn calc_memory_address(&self, modrm: &ModRM) -> (r: Result<u32, EmuError>)
        requires
            self.wf(),
            modrm.wf(),
        ensures
            r == spec_calc_memory_address(self@, *modrm),
    {
        if modrm.mode == 0 {
            if modrm.rm == 4 {
                Err(EmuError::NotImplementedModRM(0, 4))
            } else if modrm.rm == 5 {
                Ok(modrm.get_disp32())
            } else {
                Ok(self.get_register32(modrm.rm as usize))
            }
        } else if modrm.mode == 1 || modrm.mode == 2 {
            if modrm.rm == 4 {
                Err(EmuError::NotImplementedModRM(modrm.mode, 4))
            } else {
                Ok(self.get_register32(modrm.rm as usize).wrapping_add(modrm.get_disp32()))
            }
        } else {
            Err(EmuError::NotImplementedModRM(modrm.mode, modrm.rm))
        }
    }

    /// The register selected by the ModR/M `reg` field.
    pub fn get_r32(&self, modrm: &ModRM) -> (r: u32)
        requires
            self.wf(),
            modrm.wf(),
        ensures
            r == self@.regs[modrm.reg as int],
    {
        self.get_register32(modrm.get_reg_index() as usize)
    }

    /// Overwrites the register selected by the ModR/M `reg` field.
    pub fn set_r32(&mut self, modrm: &ModRM, value: u32)
        requires
            old(self).wf(),
            modrm.wf(),
        ensures
            final(self).wf(),
            final(self)@.regs == old(self)@.regs.update(modrm.reg as int, value),
            final(self)@.mem == old(self)@.mem,
            final(self)@.eflags == old(self)@.eflags,
            final(self)@.eip == old(self)@.eip,
    {
        self.set_register32(modrm.get_reg_index() as usize, value);
    }

    /// The `r/m32` operand, as `spec_get_rm32` states.
    pub fn get_rm32(&self, modrm: &ModRM) -> (r: Result<u32, EmuError>)
        requires
            self.wf(),
            modrm.wf(),
        ensures
            r == spec_get_rm32(self@, *modrm),
    {
        if modrm.mode == 3 {
            Ok(self.get_register32(modrm.rm as usize))
        } else {
            let address = match self.calc_memory_address(modrm) {
                Ok(a) => a,
                Err(e) => {
                    return Err(e);
                },
            };
            if !((address as u64) + 3 < MEMORY_SIZE as u64) {
                return Err(EmuError::OutOfRangeAccess(address));
            }
            Ok(self.get_memory32(address as usize))
        }
    }

    /// Writes the `r/m32` operand, as `spec_set_rm32` states; a refused
    /// write leaves the state unchanged.
    pub fn set_rm32(&mut self, modrm: &ModRM, value: u32) -> (r: Result<(), EmuError>)
        requires
            old(self).wf(),
            modrm.wf(),
        ensures
            final(self).wf(),
            (match spec_set_rm32(old(self)@, *modrm, value) {
                Ok(s2) => r == Ok::<(), EmuError>(()) && final(self)@ == s2,
                Err(e) => r == Err::<(), EmuError>(e) && final(self)@ == old(self)@,
            }),
    {
        if modrm.mode == 3 {
            self.set_register32(modrm.rm as usize, value);
            Ok(())
        } else {
            let address = match self.calc_memory_address(modrm) {
                Ok(a) => a,
                Err(e) => {
                    return Err(e);
                },
            };
            if !((address as u64) + 3 < MEMORY_SIZE as u64) {
                return Err(EmuError::OutOfRangeAccess(address));
            }
            self.set_memory32(address as usize, value);
            Ok(())
        }
    }
}

impl Emulator {
    /// MOV r32, imm32 (0xB8+r), as `spec_mov_r32_imm32` states.
    pub fn mov_r32_imm32(&mut self) -> (r: Result<(), EmuError>)
        requires
            old(self).wf(),
            old(self)@.eip < MEMORY_SIZE as u32,
            0xB8 <= old(self)@.mem[old(self)@.eip as int] <= 0xBF,
        ensures
            final(self).wf(),
            (match spec_mov_r32_imm32(old(self)@) {
                Ok(s2) => r == Ok::<(), EmuError>(()) && final(self)@ == s2,
                Err(e) => r == Err::<(), EmuError>(e) && final(self)@ == old(self)@,
            }),
    {
        if !((self.eip as u64) + 4 < MEMORY_SIZE as u64) {
            return Err(EmuError::OutOfRangeAccess(self.eip + 1));
        }
        let reg = self.get_code8(0) - 0xB8;
        let value = self.get_code32(1);
        self.set_register32(reg as usize, value);
        self.eip = self.eip + 5;
        Ok(())
    }

    /// MOV r/m32, imm32 (0xC7), as `spec_mov_rm32_imm32` states.
    pub fn move_rm32_imm32(&mut self) -> (r: Result<(), EmuError>)
        requires
            old(self).wf(),
            old(self)@.eip < MEMORY_SIZE as u32,
        ensures
            final(self).wf(),
            (match spec_mov_rm32_imm32(old(self)@) {
                Ok(s2) => r == Ok::<(), EmuError>(()) && final(self)@ == s2,
                Err(e) => r == Err::<(), EmuError>(e) && same_except_eip(
                    old(self)@,
                    final(self)@,
                ),
            }),
    {
        self.eip = self.eip + 1;
        let modrm = match self.parse_modrm() {
            Ok(m) => m,
            Err(e) => {
                return Err(e);
            },
        };
        if !((self.eip as u64) + 3 < MEMORY_SIZE as u64) {
            return Err(EmuError::OutOfRangeAccess(self.eip));
        }
        let value = self.get_code32(0);
        self.eip = self.eip + 4;
        self.set_rm32(&modrm, value)
    }

    /// MOV r/m32, r32 (0x89), as `spec_mov_rm32_r32` states.
    pub fn mov_rm32_r32(&mut self) -> (r: Result<(), EmuError>)
        requires
            old(self).wf(),
            old(self)@.eip < MEMORY_SIZE as u32,
        ensures
            final(self).wf(),
            (match spec_mov_rm32_r32(old(self)@) {
                Ok(s2) => r == Ok::<(), EmuError>(()) && final(self)@ == s2,
                Err(e) => r == Err::<(), EmuError>(e) && same_except_eip(
                    old(self)@,
                    final(self)@,
                ),
            }),
    {
        self.eip = self.eip + 1;
        let modrm = match self.parse_modrm() {
            Ok(m) => m,
            Err(e) => {
                return Err(e);
            },
        };
        let r32 = self.get_r32(&modrm);
        self.set_rm32(&modrm, r32)
    }

    /// MOV r32, r/m32 (0x8B), as `spec_mov_r32_rm32` states.
    pub fn mov_r32_rm32(&mut self) -> (r: Result<(), EmuError>)
        requires
            old(self).wf(),
            old(self)@.eip < MEMORY_SIZE as u32,
        ensures
            final(self).wf(),
            (match spec_mov_r32_rm32(old(self)@) {
                Ok(s2) => r == Ok::<(), EmuError>(()) && final(self)@ == s2,
                Err(e) => r == Err::<(), EmuError>(e) && same_except_eip(
                    old(self)@,
                    final(self)@,
                ),
            }),
    {
        self.eip = self.eip + 1;
        let modrm = match self.parse_modrm() {
            Ok(m) => m,
            Err(e) => {
                return Err(e);
            },
        };
        let rm32 = match self.get_rm32(&modrm) {
            Ok(v) => v,
            Err(e) => {
                return Err(e);
            },
        };
        self.set_r32(&modrm, rm32);
        Ok(())
    }

    /// ADD r/m32, r32 (0x01), as `spec_add_rm32_r32` states.
    pub fn add_rm32_r32(&mut self) -> (r: Result<(), EmuError>)
        requires
            old(self).wf(),
            old(self)@.eip < MEMORY_SIZE as u32,
        ensures
            final(self).wf(),
            (match spec_add_rm32_r32(old(self)@) {
                Ok(s2) => r == Ok::<(), EmuError>(()) && final(self)@ == s2,
                Err(e) => r == Err::<(), EmuError>(e) && same_except_eip(
                    old(self)@,
                    final(self)@,
                ),
            }),
    {
        self.eip = self.eip + 1;
        let modrm = match self.parse_modrm() {
            Ok(m) => m,
            Err(e) => {
                return Err(e);
            },
        };
        let r32 = self.get_r32(&modrm);
        let rm32 = match self.get_rm32(&modrm) {
            Ok(v) => v,
            Err(e) => {
                return Err(e);
            },
        };
        self.set_rm32(&modrm, rm32.wrapping_add(r32))
    }

    /// ADD r/m32, imm8 (0x83 /0), as `spec_add_rm32_imm8` states; EIP stands
    /// at the immediate byte.
    pub fn add_rm32_imm8(&mut self, modrm: &ModRM) -> (r: Result<(), EmuError>)
        requires
            old(self).wf(),
            modrm.wf(),
        ensures
            final(self).wf(),
            (match spec_add_rm32_imm8(old(self)@, *modrm) {
                Ok(s2) => r == Ok::<(), EmuError>(()) && final(self)@ == s2,
                Err(e) => r == Err::<(), EmuError>(e) && same_except_eip(
                    old(self)@,
                    final(self)@,
                ),
            }),
    {
        let rm32 = match self.get_rm32(modrm) {
            Ok(v) => v,
            Err(e) => {
                return Err(e);
            },
        };
        if !(self.eip < MEMORY_SIZE as u32) {
            return Err(EmuError::OutOfRangeAccess(self.eip));
        }
        let imm = sign_extend8(self.get_code8(0));
        self.eip = self.eip + 1;
        self.set_rm32(modrm, rm32.wrapping_add(imm))
    }

    /// SUB r/m32, imm8 (0x83 /5), as `spec_sub_rm32_imm8` states.
    pub fn sub_rm32_imm8(&mut self, modrm: &ModRM) -> (r: Result<(), EmuError>)
        requires
            old(self).wf(),
            modrm.wf(),
        ensures
            final(self).wf(),
            (match spec_sub_rm32_imm8(old(self)@, *modrm) {
                Ok(s2) => r == Ok::<(), EmuError>(()) && final(self)@ == s2,
                Err(e) => r == Err::<(), EmuError>(e) && same_except_eip(
                    old(self)@,
                    final(self)@,
                ),
            }),
    {
        let rm32 = match self.get_rm32(modrm) {
            Ok(v) => v,
            Err(e) => {
                return Err(e);
            },
        };
        if !(self.eip < MEMORY_SIZE as u32) {
            return Err(EmuError::OutOfRangeAccess(self.eip));
        }
        let imm = sign_extend8(self.get_code8(0));
        self.eip = self.eip + 1;
        let result = (rm32 as u64).wrapping_sub(imm as u64);
        proof {
            assert(result & 0xFFFF_FFFF <= 0xFFFF_FFFFu64) by (bit_vector);
        }
        let lo = (result & 0xFFFF_FFFF) as u32;
        match self.set_rm32(modrm, lo) {
            Ok(()) => {},
            Err(e) => {
                return Err(e);
            },
        }
        self.update_eflags_sub(rm32, imm, result);
        Ok(())
    }

    /// CMP r/m32, imm8 (0x83 /7), as `spec_cmp_rm32_imm8` states.
    pub fn cmp_rm32_imm8(&mut self, modrm: &ModRM) -> (r: Result<(), EmuError>)
        requires
            old(self).wf(),
            modrm.wf(),
        ensures
            final(self).wf(),
            (match spec_cmp_rm32_imm8(old(self)@, *modrm) {
                Ok(s2) => r == Ok::<(), EmuError>(()) && final(self)@ == s2,
                Err(e) => r == Err::<(), EmuError>(e) && same_except_eip(
                    old(self)@,
                    final(self)@,
                ),
            }),
    {
        let rm32 = match self.get_rm32(modrm) {
            Ok(v) => v,
            Err(e) => {
                return Err(e);
            },
        };
        if !(self.eip < MEMORY_SIZE as u32) {
            return Err(EmuError::OutOfRangeAccess(self.eip));
        }
        let imm = sign_extend8(self.get_code8(0));
        self.eip = self.eip + 1;
        let result = (rm32 as u64).wrapping_sub(imm as u64);
        self.update_eflags_sub(rm32, imm, result);
        Ok(())
    }

    /// CMP r32, r/m32 (0x3B), as `spec_cmp_r32_rm32` states.
    pub fn cmp_r32_rm32(&mut self) -> (r: Result<(), EmuError>)
        requires
            old(self).wf(),
            old(self)@.eip < MEMORY_SIZE as u32,
        ensures
            final(self).wf(),
            (match spec_cmp_r32_rm32(old(self)@) {
                Ok(s2) => r == Ok::<(), EmuError>(()) && final(self)@ == s2,
                Err(e) => r == Err::<(), EmuError>(e) && same_except_eip(
                    old(self)@,
                    final(self)@,
                ),
            }),
    {
        self.eip = self.eip + 1;
        let modrm = match self.parse_modrm() {
            Ok(m) => m,
            Err(e) => {
                return Err(e);
            },
        };
        let r32 = self.get_r32(&modrm);
        let rm32 = match self.get_rm32(&modrm) {
            Ok(v) => v,
            Err(e) => {
                return Err(e);
            },
        };
        let result = (r32 as u64).wrapping_sub(rm32 as u64);
        self.update_eflags_sub(r32, rm32, result);
        Ok(())
    }

    /// The 0x83 group, as `spec_code_83` states: the ModR/M `reg` field
    /// selects the arithmetic sub-opcode.
    pub fn code_83(&mut self) -> (r: Result<(), EmuError>)
        requires
            old(self).wf(),
            old(self)@.eip < MEMORY_SIZE as u32,
        ensures
            final(self).wf(),
            (match spec_code_83(old(self)@) {
                Ok(s2) => r == Ok::<(), EmuError>(()) && final(self)@ == s2,
                Err(e) => r == Err::<(), EmuError>(e) && same_except_eip(
                    old(self)@,
                    final(self)@,
                ),
            }),
    {
        self.eip = self.eip + 1;
        let modrm = match self.parse_modrm() {
            Ok(m) => m,
            Err(e) => {
                return Err(e);
            },
        };
        let opecode = modrm.get_opecode();
        if opecode == 0 {
            self.add_rm32_imm8(&modrm)
        } else if opecode == 5 {
            self.sub_rm32_imm8(&modrm)
        } else if opecode == 7 {
            self.cmp_rm32_imm8(&modrm)
        } else {
            Err(EmuError::NotImplementedSubOpcode(0x83, opecode))
        }
    }

    /// INC r/m32 (0xFF /0), as `spec_inc_rm32` states.
    pub fn inc_rm32(&mut self, modrm: &ModRM) -> (r: Result<(), EmuError>)
        requires
            old(self).wf(),
            modrm.wf(),
        ensures
            final(self).wf(),
            (match spec_inc_rm32(old(self)@, *modrm) {
                Ok(s2) => r == Ok::<(), EmuError>(()) && final(self)@ == s2,
                Err(e) => r == Err::<(), EmuError>(e) && final(self)@ == old(self)@,
            }),
    {
        let value = match self.get_rm32(modrm) {
            Ok(v) => v,
            Err(e) => {
                return Err(e);
            },
        };
        self.set_rm32(modrm, value.wrapping_add(1))
    }

    /// The 0xFF group, as `spec_code_ff` states: only INC is implemented.
    pub fn code_ff(&mut self) -> (r: Result<(), EmuError>)
        requires
            old(self).wf(),
            old(self)@.eip < MEMORY_SIZE as u32,
        ensures
            final(self).wf(),
            (match spec_code_ff(old(self)@) {
                Ok(s2) => r == Ok::<(), EmuError>(()) && final(self)@ == s2,
                Err(e) => r == Err::<(), EmuError>(e) && same_except_eip(
                    old(self)@,
                    final(self)@,
                ),
            }),
    {
        self.eip = self.eip + 1;
        let modrm = match self.parse_modrm() {
            Ok(m) => m,
            Err(e) => {
                return Err(e);
            },
        };
        let opecode = modrm.get_opecode();
        if opecode == 0 {
            self.inc_rm32(&modrm)
        } else {
            Err(EmuError::NotImplementedSubOpcode(0xFF, opecode))
        }
    }

    /// PUSH r32 (0x50+r), as `spec_push_r32` states.
    pub fn push_r32(&mut self) -> (r: Result<(), EmuError>)
        requires
            old(self).wf(),
            old(self)@.eip < MEMORY_SIZE as u32,
            0x50 <= old(self)@.mem[old(self)@.eip as int] <= 0x57,
        ensures
            final(self).wf(),
            (match spec_push_r32(old(self)@) {
                Ok(s2) => r == Ok::<(), EmuError>(()) && final(self)@ == s2,
                Err(e) => r == Err::<(), EmuError>(e) && final(self)@ == old(self)@,
            }),
    {
        let reg = self.get_code8(0) - 0x50;
        let value = self.get_register32(reg as usize);
        let esp = self.get_register32(4);
        if !(4 <= esp && esp <= MEMORY_SIZE as u32) {
            return Err(EmuError::OutOfRangeAccess(esp));
        }
        self.push32(value);
        self.eip = self.eip + 1;
        Ok(())
    }

    /// PUSH imm8 (0x6A), as `spec_push_imm8` states: the immediate is
    /// zero-extended.
    pub fn push_imm8(&mut self) -> (r: Result<(), EmuError>)
        requires
            old(self).wf(),
            old(self)@.eip < MEMORY_SIZE as u32,
        ensures
            final(self).wf(),
            (match spec_push_imm8(old(self)@) {
                Ok(s2) => r == Ok::<(), EmuError>(()) && final(self)@ == s2,
                Err(e) => r == Err::<(), EmuError>(e) && final(self)@ == old(self)@,
            }),
    {
        if !((self.eip as u64) + 1 < MEMORY_SIZE as u64) {
            return Err(EmuError::OutOfRangeAccess(self.eip + 1));
        }
        let value = self.get_code8(1);
        let esp = self.get_register32(4);
        if !(4 <= esp && esp <= MEMORY_SIZE as u32) {
            return Err(EmuError::OutOfRangeAccess(esp));
        }
        self.push32(value as u32);
        self.eip = self.eip + 2;
        Ok(())
    }

    /// PUSH imm32 (0x68), as `spec_push_imm32` states.
    pub fn push_imm32(&mut self) -> (r: Result<(), EmuError>)
        requires
            old(self).wf(),
            old(self)@.eip < MEMORY_SIZE as u32,
        ensures
            final(self).wf(),
            (match spec_push_imm32(old(self)@) {
                Ok(s2) => r == Ok::<(), EmuError>(()) && final(self)@ == s2,
                Err(e) => r == Err::<(), EmuError>(e) && final(self)@ == old(self)@,
            }),
    {
        if !((self.eip as u64) + 4 < MEMORY_SIZE as u64) {
            return Err(EmuError::OutOfRangeAccess(self.eip + 1));
        }
        let value = self.get_code32(1);
        let esp = self.get_register32(4);
        if !(4 <= esp && esp <= MEMORY_SIZE as u32) {
            return Err(EmuError::OutOfRangeAccess(esp));
        }
        self.push32(value);
        self.eip = self.eip + 5;
        Ok(())
    }

    /// POP r32 (0x58+r), as `spec_pop_r32` states.
    pub fn pop_r32(&mut self) -> (r: Result<(), EmuError>)
        requires
            old(self).wf(),
            old(self)@.eip < MEMORY_SIZE as u32,
            0x58 <= old(self)@.mem[old(self)@.eip as int] <= 0x5F,
        ensures
            final(self).wf(),
            (match spec_pop_r32(old(self)@) {
                Ok(s2) => r == Ok::<(), EmuError>(()) && final(self)@ == s2,
                Err(e) => r == Err::<(), EmuError>(e) && final(self)@ == old(self)@,
            }),
    {
        let reg = self.get_code8(0) - 0x58;
        let esp = self.get_register32(4);
        if !((esp as u64) + 4 <= MEMORY_SIZE as u64) {
            return Err(EmuError::OutOfRangeAccess(esp));
        }
        let value = self.pop32();
        self.set_register32(reg as usize, value);
        self.eip = self.eip + 1;
        Ok(())
    }

    /// CALL rel32 (0xE8), as `spec_call_rel32` states: the return address is
    /// pushed, then EIP moves by the instruction length plus the
    /// displacement.
    pub fn call_rel32(&mut self) -> (r: Result<(), EmuError>)
        requires
            old(self).wf(),
            old(self)@.eip < MEMORY_SIZE as u32,
        ensures
            final(self).wf(),
            (match spec_call_rel32(old(self)@) {
                Ok(s2) => r == Ok::<(), EmuError>(()) && final(self)@ == s2,
                Err(e) => r == Err::<(), EmuError>(e) && final(self)@ == old(self)@,
            }),
    {
        if !((self.eip as u64) + 4 < MEMORY_SIZE as u64) {
            return Err(EmuError::OutOfRangeAccess(self.eip + 1));
        }
        let diff = self.get_code32(1);
        let esp = self.get_register32(4);
        if !(4 <= esp && esp <= MEMORY_SIZE as u32) {
            return Err(EmuError::OutOfRangeAccess(esp));
        }
        let eip = self.eip;
        self.push32(eip.wrapping_add(5));
        self.eip = eip.wrapping_add(5).wrapping_add(diff);
        Ok(())
    }

    /// RET (0xC3), as `spec_ret` states: EIP is popped.
    pub fn ret(&mut self) -> (r: Result<(), EmuError>)
        requires
            old(self).wf(),
        ensures
            final(self).wf(),
            (match spec_ret(old(self)@) {
                Ok(s2) => r == Ok::<(), EmuError>(()) && final(self)@ == s2,
                Err(e) => r == Err::<(), EmuError>(e) && final(self)@ == old(self)@,
            }),
    {
        let esp = self.get_register32(4);
        if !((esp as u64) + 4 <= MEMORY_SIZE as u64) {
            return Err(EmuError::OutOfRangeAccess(esp));
        }
        let value = self.pop32();
        self.eip = value;
        Ok(())
    }

    /// LEAVE (0xC9), as `spec_leave` states: ESP takes EBP's value and EBP
    /// is popped.
    pub fn leave(&mut self) -> (r: Result<(), EmuError>)
        requires
            old(self).wf(),
            old(self)@.eip < MEMORY_SIZE as u32,
        ensures
            final(self).wf(),
            (match spec_leave(old(self)@) {
                Ok(s2) => r == Ok::<(), EmuError>(()) && final(self)@ == s2,
                Err(e) => r == Err::<(), EmuError>(e) && final(self)@ == old(self)@,
            }),
    {
        let ebp = self.get_register32(5);
        if !((ebp as u64) + 4 <= MEMORY_SIZE as u64) {
            return Err(EmuError::OutOfRangeAccess(ebp));
        }
        self.set_register32(4, ebp);
        let value = self.pop32();
        self.set_register32(5, value);
        self.eip = self.eip + 1;
        proof {
            if spec_leave(old(self)@) is Ok {
                assert(final(self)@ =~= spec_leave(old(self)@)->Ok_0);
            }
        }
        Ok(())
    }

    /// JMP rel8 (0xEB), as `spec_short_jump` states.
    pub fn short_jump(&mut self) -> (r: Result<(), EmuError>)
        requires
            old(self).wf(),
            old(self)@.eip < MEMORY_SIZE as u32,
        ensures
            final(self).wf(),
            (match spec_short_jump(old(self)@) {
                Ok(s2) => r == Ok::<(), EmuError>(()) && final(self)@ == s2,
                Err(e) => r == Err::<(), EmuError>(e) && final(self)@ == old(self)@,
            }),
    {
        if !((self.eip as u64) + 1 < MEMORY_SIZE as u64) {
            return Err(EmuError::OutOfRangeAccess(self.eip + 1));
        }
        let diff = sign_extend8(self.get_code8(1));
        self.eip = self.eip.wrapping_add(2u32.wrapping_add(diff));
        Ok(())
    }

    /// JMP rel32 (0xE9), as `spec_near_jump` states.
    pub fn near_jump(&mut self) -> (r: Result<(), EmuError>)
        requires
            old(self).wf(),
            old(self)@.eip < MEMORY_SIZE as u32,
        ensures
            final(self).wf(),
            (match spec_near_jump(old(self)@) {
                Ok(s2) => r == Ok::<(), EmuError>(()) && final(self)@ == s2,
                Err(e) => r == Err::<(), EmuError>(e) && final(self)@ == old(self)@,
            }),
    {
        if !((self.eip as u64) + 4 < MEMORY_SIZE as u64) {
            return Err(EmuError::OutOfRangeAccess(self.eip + 1));
        }
        let diff = self.get_code32(1);
        self.eip = self.eip.wrapping_add(5u32.wrapping_add(diff));
        Ok(())
    }

    /// The shared body of the conditional short jumps, as `spec_jcc` states.
    fn jump_if(&mut self, cond: bool) -> (r: Result<(), EmuError>)
        requires
            old(self).wf(),
            old(self)@.eip < MEMORY_SIZE as u32,
        ensures
            final(self).wf(),
            (match spec_jcc(old(self)@, cond) {
                Ok(s2) => r == Ok::<(), EmuError>(()) && final(self)@ == s2,
                Err(e) => r == Err::<(), EmuError>(e) && final(self)@ == old(self)@,
            }),
    {
        if cond {
            if !((self.eip as u64) + 1 < MEMORY_SIZE as u64) {
                return Err(EmuError::OutOfRangeAccess(self.eip + 1));
            }
            let diff = sign_extend8(self.get_code8(1));
            self.eip = self.eip.wrapping_add(2u32.wrapping_add(diff));
        } else {
            self.eip = self.eip.wrapping_add(2);
        }
        Ok(())
    }

    /// JO (0x70): jump on overflow.
    pub fn jo(&mut self) -> (r: Result<(), EmuError>)
        requires
            old(self).wf(),
            old(self)@.eip < MEMORY_SIZE as u32,
        ensures
            final(self).wf(),
            (match spec_jcc(old(self)@, flag_set(old(self)@.eflags, OVERFLOW_FLAG)) {
                Ok(s2) => r == Ok::<(), EmuError>(()) && final(self)@ == s2,
                Err(e) => r == Err::<(), EmuError>(e) && final(self)@ == old(self)@,
            }),
    {
        let cond = self.is_overflow();
        self.jump_if(cond)
    }

    /// JNO (0x71): jump unless overflow.
    pub fn jno(&mut self) -> (r: Result<(), EmuError>)
        requires
            old(self).wf(),
            old(self)@.eip < MEMORY_SIZE as u32,
        ensures
            final(self).wf(),
            (match spec_jcc(old(self)@, !flag_set(old(self)@.eflags, OVERFLOW_FLAG)) {
                Ok(s2) => r == Ok::<(), EmuError>(()) && final(self)@ == s2,
                Err(e) => r == Err::<(), EmuError>(e) && final(self)@ == old(self)@,
            }),
    {
        let cond = self.is_overflow();
        self.jump_if(!cond)
    }

    /// JC (0x72): jump on carry.
    pub fn jc(&mut self) -> (r: Result<(), EmuError>)
        requires
            old(self).wf(),
            old(self)@.eip < MEMORY_SIZE as u32,
        ensures
            final(self).wf(),
            (match spec_jcc(old(self)@, flag_set(old(self)@.eflags, CARRY_FLAG)) {
                Ok(s2) => r == Ok::<(), EmuError>(()) && final(self)@ == s2,
                Err(e) => r == Err::<(), EmuError>(e) && final(self)@ == old(self)@,
            }),
    {
        let cond = self.is_carry();
        self.jump_if(cond)
    }

    /// JNC (0x73): jump unless carry.
    pub fn jnc(&mut self) -> (r: Result<(), EmuError>)
        requires
            old(self).wf(),
            old(self)@.eip < MEMORY_SIZE as u32,
        ensures
            final(self).wf(),
            (match spec_jcc(old(self)@, !flag_set(old(self)@.eflags, CARRY_FLAG)) {
                Ok(s2) => r == Ok::<(), EmuError>(()) && final(self)@ == s2,
                Err(e) => r == Err::<(), EmuError>(e) && final(self)@ == old(self)@,
            }),
    {
        let cond = self.is_carry();
        self.jump_if(!cond)
    }

    /// JZ (0x74): jump on zero.
    pub fn jz(&mut self) -> (r: Result<(), EmuError>)
        requires
            old(self).wf(),
            old(self)@.eip < MEMORY_SIZE as u32,
        ensures
            final(self).wf(),
            (match spec_jcc(old(self)@, flag_set(old(self)@.eflags, ZERO_FLAG)) {
                Ok(s2) => r == Ok::<(), EmuError>(()) && final(self)@ == s2,
                Err(e) => r == Err::<(), EmuError>(e) && final(self)@ == old(self)@,
            }),
    {
        let cond = self.is_zero();
        self.jump_if(cond)
    }

    /// JNZ (0x75): jump unless zero.
    pub fn jnz(&mut self) -> (r: Result<(), EmuError>)
        requires
            old(self).wf(),
            old(self)@.eip < MEMORY_SIZE as u32,
        ensures
            final(self).wf(),
            (match spec_jcc(old(self)@, !flag_set(old(self)@.eflags, ZERO_FLAG)) {
                Ok(s2) => r == Ok::<(), EmuError>(()) && final(self)@ == s2,
                Err(e) => r == Err::<(), EmuError>(e) && final(self)@ == old(self)@,
            }),
    {
        let cond = self.is_zero();
        self.jump_if(!cond)
    }

    /// JS (0x78): jump on sign.
    pub fn js(&mut self) -> (r: Result<(), EmuError>)
        requires
            old(self).wf(),
            old(self)@.eip < MEMORY_SIZE as u32,
        ensures
            final(self).wf(),
            (match spec_jcc(old(self)@, flag_set(old(self)@.eflags, SIGN_FLAG)) {
                Ok(s2) => r == Ok::<(), EmuError>(()) && final(self)@ == s2,
                Err(e) => r == Err::<(), EmuError>(e) && final(self)@ == old(self)@,
            }),
    {
        let cond = self.is_sign();
        self.jump_if(cond)
    }

    /// JNS (0x79): jump unless sign.
    pub fn jns(&mut self) -> (r: Result<(), EmuError>)
        requires
            old(self).wf(),
            old(self)@.eip < MEMORY_SIZE as u32,
        ensures
            final(self).wf(),
            (match spec_jcc(old(self)@, !flag_set(old(self)@.eflags, SIGN_FLAG)) {
                Ok(s2) => r == Ok::<(), EmuError>(()) && final(self)@ == s2,
                Err(e) => r == Err::<(), EmuError>(e) && final(self)@ == old(self)@,
            }),
    {
        let cond = self.is_sign();
        self.jump_if(!cond)
    }

    /// JL (0x7C): jump when SF differs from OF (signed less-than).
    pub fn jl(&mut self) -> (r: Result<(), EmuError>)
        requires
            old(self).wf(),
            old(self)@.eip < MEMORY_SIZE as u32,
        ensures
            final(self).wf(),
            (match spec_jcc(
                old(self)@,
                flag_set(old(self)@.eflags, SIGN_FLAG) != flag_set(
                    old(self)@.eflags,
                    OVERFLOW_FLAG,
                ),
            ) {
                Ok(s2) => r == Ok::<(), EmuError>(()) && final(self)@ == s2,
                Err(e) => r == Err::<(), EmuError>(e) && final(self)@ == old(self)@,
            }),
    {
        let sf = self.is_sign();
        let of = self.is_overflow();
        self.jump_if(sf != of)
    }

    /// JLE (0x7E): jump when ZF is set or SF differs from OF (signed
    /// less-or-equal).
    pub fn jle(&mut self) -> (r: Result<(), EmuError>)
        requires
            old(self).wf(),
            old(self)@.eip < MEMORY_SIZE as u32,
        ensures
            final(self).wf(),
            (match spec_jcc(
                old(self)@,
                flag_set(old(self)@.eflags, ZERO_FLAG) || (flag_set(old(self)@.eflags, SIGN_FLAG)
                    != flag_set(old(self)@.eflags, OVERFLOW_FLAG)),
            ) {
                Ok(s2) => r == Ok::<(), EmuError>(()) && final(self)@ == s2,
                Err(e) => r == Err::<(), EmuError>(e) && final(self)@ == old(self)@,
            }),
    {
        let zf = self.is_zero();
        let sf = self.is_sign();
        let of = self.is_overflow();
        self.jump_if(zf || (sf != of))
    }

    /// One dispatch step, as `spec_step` states: the opcode byte at EIP
    /// selects the handler. A refused instruction leaves the registers, the
    /// memory and the flags exactly as they were — decoding may have moved
    /// EIP — and an opcode outside the table leaves the whole state
    /// untouched.
    pub fn exec_instruction(&mut self) -> (r: Result<(), EmuError>)
        requires
            old(self).wf(),
            old(self)@.eip < MEMORY_SIZE as u32,
        ensures
            final(self).wf(),
            (match spec_step(old(self)@) {
                Ok(s2) => r == Ok::<(), EmuError>(()) && final(self)@ == s2,
                Err(e) => r == Err::<(), EmuError>(e) && same_except_eip(
                    old(self)@,
                    final(self)@,
                ),
            }),
            !opcode_implemented(old(self)@.mem[old(self)@.eip as int]) ==> final(self)@ == old(
                self,
            )@,
    {
        let code = self.get_code8(0);
        if code == 0x01 {
            self.add_rm32_r32()
        } else if code == 0x3B {
            self.cmp_r32_rm32()
        } else if 0x50 <= code && code <= 0x57 {
            self.push_r32()
        } else if 0x58 <= code && code <= 0x5F {
            self.pop_r32()
        } else if code == 0x68 {
            self.push_imm32()
        } else if code == 0x6A {
            self.push_imm8()
        } else if code == 0x70 {
            self.jo()
        } else if code == 0x71 {
            self.jno()
        } else if code == 0x72 {
            self.jc()
        } else if code == 0x73 {
            self.jnc()
        } else if code == 0x74 {
            self.jz()
        } else if code == 0x75 {
            self.jnz()
        } else if code == 0x78 {
            self.js()
        } else if code == 0x79 {
            self.jns()
        } else if code == 0x7C {
            self.jl()
        } else if code == 0x7E {
            self.jle()
        } else if code == 0x83 {
            self.code_83()
        } else if code == 0x89 {
            self.mov_rm32_r32()
        } else if code == 0x8B {
            self.mov_r32_rm32()
        } else if 0xB8 <= code && code <= 0xBF {
            self.mov_r32_imm32()
        } else if code == 0xC3 {
            self.ret()
        } else if code == 0xC7 {
            self.move_rm32_imm32()
        } else if code == 0xC9 {
            self.leave()
        } else if code == 0xE8 {
            self.call_rel32()
        } else if code == 0xE9 {
            self.near_jump()
        } else if code == 0xEB {
            self.short_jump()
        } else if code == 0xFF {
            self.code_ff()
        } else {
            Err(EmuError::NotImplementedOpcode(code))
        }
    }

    /// The dispatch loop, as `spec_run` states: instructions execute until
    /// EIP leaves the memory, reaches zero (the conventional end of the
    /// program), an instruction is refused, or `max_steps` instructions have
    /// run. `Ok(true)` reports the first two — the program is over;
    /// `Ok(false)` reports an exhausted step budget, EIP still inside the
    /// memory. A program that keeps EIP inside the memory without ever
    /// reaching zero (a jump to itself, say) runs until the budget ends.
    pub fn run_instructions(&mut self, max_steps: u64) -> (r: Result<bool, EmuError>)
        requires
            old(self).wf(),
        ensures
            final(self).wf(),
            (match spec_run(old(self)@, max_steps as nat) {
                Ok(p) => r == Ok::<bool, EmuError>(p.1) && final(self)@ == p.0,
                Err(e) => r == Err::<bool, EmuError>(e),
            }),
            r == Ok::<bool, EmuError>(true) ==> final(self)@.eip == 0 || final(self)@.eip
                >= MEMORY_SIZE as u32,
            r == Ok::<bool, EmuError>(false) ==> final(self)@.eip < MEMORY_SIZE as u32,
    {
        let mut steps: u64 = 0;
        while self.eip < MEMORY_SIZE as u32 && steps < max_steps
            invariant
                self.wf(),
                steps <= max_steps,
                spec_run(old(self)@, max_steps as nat) == spec_run(
                    self@,
                    (max_steps - steps) as nat,
                ),
            decreases max_steps - steps,
        {
            match self.exec_instruction() {
                Ok(()) => {},
                Err(e) => {
                    return Err(e);
                },
            }
            if self.eip == 0 {
                return Ok(true);
            }
            steps = steps + 1;
        }
        if self.eip < MEMORY_SIZE as u32 {
            Ok(false)
        } else {
            Ok(true)
        }
    }
}

/// Reading back a word just stored: the four bytes written little-endian at
/// `a` compose back to the stored value.
pub proof fn lemma_write_read_u32(m: Seq<u8>, a: int, v: u32)
    requires
        0 <= a,
        a + 4 <= m.len(),
    ensures
        le32_at(store32(m, a, v), a) == v,
{
    assert((((v & 0xFF) as u8) as u32) | (((((v >> 8) & 0xFF) as u8) as u32) << 8) | (((((v >> 16)
        & 0xFF) as u8) as u32) << 16) | (((((v >> 24) & 0xFF) as u8) as u32) << 24) == v)
        by (bit_vector);
}

/// A word read is unaffected by the rest of memory: two memories that agree
/// on the four bytes at `a` yield the same word there. Together with
/// `lemma_write_read_u32` this is the word-level round trip: a store of `v`
/// at `a` is read back as `v` as long as no intervening store touched
/// `[a, a + 4)`.
pub proof fn lemma_read_u32_frame(m1: Seq<u8>, m2: Seq<u8>, a: int)
    requires
        0 <= a,
        a + 4 <= m1.len(),
        m1.len() == m2.len(),
        forall|i: int| a <= i < a + 4 ==> m1[i] == m2[i],
    ensures
        le32_at(m1, a) == le32_at(m2, a),
{
}

/// The value of `v` read as a 32-bit two's-complement signed integer.
pub open spec fn to_i32(v: u32) -> int {
    if v < 0x8000_0000 {
        v as int
    } else {
        v - 0x1_0000_0000
    }
}

/// Whether `v1 - v2` overflows as a signed 32-bit subtraction.
pub open spec fn signed_overflow_sub(v1: u32, v2: u32) -> bool {
    let d = to_i32(v1) - to_i32(v2);
    d < -0x8000_0000 || d > 0x7FFF_FFFF
}

proof fn lemma_with_flag_same(f: u32, mask: u32, b: bool)
    requires
        mask != 0,
    ensures
        flag_set(with_flag(f, mask, b), mask) == b,
{
    if b {
        assert((f | mask) & mask != 0) by (bit_vector)
            requires
                mask != 0u32,
        ;
    } else {
        assert((f & !mask) & mask == 0) by (bit_vector);
    }
}

proof fn lemma_with_flag_other(f: u32, mask: u32, other: u32, b: bool)
    requires
        mask & other == 0,
    ensures
        flag_set(with_flag(f, mask, b), other) == flag_set(f, other),
{
    if b {
        assert((f | mask) & other == f & other) by (bit_vector)
            requires
                mask & other == 0u32,
        ;
    } else {
        assert((f & !mask) & other == f & other) by (bit_vector)
            requires
                mask & other == 0u32,
        ;
    }
}

/// What the four flags mean after `update_eflags_sub` on the genuine 64-bit
/// wrapping difference of `v1` and `v2`: ZF holds exactly when the operands
/// are equal, CF exactly when `v1 < v2` unsigned, SF is bit 31 of the 32-bit
/// result, and OF holds exactly when the signed subtraction overflows.
pub proof fn lemma_update_eflags_sub_meaning(f: u32, v1: u32, v2: u32)
    ensures
        ({
            let r = sub64(v1, v2);
            let f2 = eflags_after_sub(f, v1, v2, r);
            &&& flag_set(f2, ZERO_FLAG) == (v1 == v2)
            &&& flag_set(f2, CARRY_FLAG) == (v1 < v2)
            &&& flag_set(f2, SIGN_FLAG) == (low32(r) >= 0x8000_0000)
            &&& flag_set(f2, OVERFLOW_FLAG) == signed_overflow_sub(v1, v2)
        }),
{
    let r = sub64(v1, v2);
    let cf = (r >> 32) != 0;
    let zf = (r & 0xFFFF_FFFF) == 0;
    let sf = ((r >> 31) & 1) == 1;
    let of = (((v1 >> 31) == 1) != ((v2 >> 31) == 1)) && (((v1 >> 31) == 1) != sf);
    let g1 = with_flag(f, CARRY_FLAG, cf);
    let g2 = with_flag(g1, ZERO_FLAG, zf);
    let g3 = with_flag(g2, SIGN_FLAG, sf);
    let f2 = with_flag(g3, OVERFLOW_FLAG, of);

    assert(CARRY_FLAG & ZERO_FLAG == 0 && CARRY_FLAG & SIGN_FLAG == 0 && CARRY_FLAG & OVERFLOW_FLAG
        == 0 && ZERO_FLAG & SIGN_FLAG == 0 && ZERO_FLAG & OVERFLOW_FLAG == 0 && SIGN_FLAG
        & OVERFLOW_FLAG == 0 && ZERO_FLAG & CARRY_FLAG == 0 && SIGN_FLAG & CARRY_FLAG == 0
        && OVERFLOW_FLAG & CARRY_FLAG == 0 && SIGN_FLAG & ZERO_FLAG == 0 && OVERFLOW_FLAG
        & ZERO_FLAG == 0 && OVERFLOW_FLAG & SIGN_FLAG == 0) by (bit_vector);

    // Extract each flag through the nested updates.
    lemma_with_flag_same(g3, OVERFLOW_FLAG, of);
    lemma_with_flag_other(g3, OVERFLOW_FLAG, SIGN_FLAG, of);
    lemma_with_flag_same(g2, SIGN_FLAG, sf);
    lemma_with_flag_other(g3, OVERFLOW_FLAG, ZERO_FLAG, of);
    lemma_with_flag_other(g2, SIGN_FLAG, ZERO_FLAG, sf);
    lemma_with_flag_same(g1, ZERO_FLAG, zf);
    lemma_with_flag_other(g3, OVERFLOW_FLAG, CARRY_FLAG, of);
    lemma_with_flag_other(g2, SIGN_FLAG, CARRY_FLAG, sf);
    lemma_with_flag_other(g1, ZERO_FLAG, CARRY_FLAG, zf);
    lemma_with_flag_same(f, CARRY_FLAG, cf);
    assert(flag_set(f2, OVERFLOW_FLAG) == of);
    assert(flag_set(f2, SIGN_FLAG) == sf);
    assert(flag_set(f2, ZERO_FLAG) == zf);
    assert(flag_set(f2, CARRY_FLAG) == cf);

    // The value of the wrapping difference, split on the borrow.
    if v1 >= v2 {
        assert(r == v1 - v2);
        assert(r < 0x1_0000_0000u64);
        assert(r >> 32 == 0) by (bit_vector)
            requires
                r < 0x1_0000_0000u64,
        ;
        assert(r & 0xFFFF_FFFF == r) by (bit_vector)
            requires
                r < 0x1_0000_0000u64,
        ;
        if v1 == v2 {
            assert(zf);
        } else {
            assert(r != 0);
            assert(!zf);
        }
    } else {
        assert(r == 0x1_0000_0000_0000_0000 + v1 - v2);
        assert(r > 0xFFFF_FFFF_0000_0000u64);
        assert(r >> 32 != 0) by (bit_vector)
            requires
                r > 0xFFFF_FFFF_0000_0000u64,
        ;
        assert(r & 0xFFFF_FFFF == r - 0xFFFF_FFFF_0000_0000) by (bit_vector)
            requires
                r > 0xFFFF_FFFF_0000_0000u64,
        ;
        assert(r & 0xFFFF_FFFF != 0);
    }
    assert(cf == (v1 < v2));
    assert(zf == (v1 == v2));

    // Bit 31 of the difference is the sign of its low 32 bits.
    assert(r & 0xFFFF_FFFF <= 0xFFFF_FFFFu64) by (bit_vector);
    assert((((r >> 31) & 1) == 1) == ((r & 0xFFFF_FFFF) >= 0x8000_0000)) by (bit_vector);
    assert(sf == (low32(r) >= 0x8000_0000));

    // Signed overflow: relate the sign bits to value ranges and let the
    // arithmetic close the four sign cases.
    assert(((v1 >> 31) == 1) == (v1 >= 0x8000_0000u32)) by (bit_vector);
    assert(((v2 >> 31) == 1) == (v2 >= 0x8000_0000u32)) by (bit_vector);
    let low = (r & 0xFFFF_FFFF) as int;
    if v1 >= v2 {
        assert(low == v1 - v2);
    } else {
        assert(low == 0x1_0000_0000 + v1 - v2);
    }
    assert(sf == (low >= 0x8000_0000));
    assert(of == signed_overflow_sub(v1, v2));
}

/// The state after pushing `values` in order, first element first.
pub open spec fn spec_push_seq(s: EmuState, values: Seq<u32>) -> EmuState
    decreases values.len(),
{
    if values.len() == 0 {
        s
    } else {
        spec_push_seq(spec_push32(s, values.first()), values.drop_first())
    }
}

/// The state after `n` pops, with the popped words in pop order.
pub open spec fn spec_pop_seq(s: EmuState, n: nat) -> (EmuState, Seq<u32>)
    decreases n,
{
    if n == 0 {
        (s, Seq::empty())
    } else {
        let (s1, v) = spec_pop32(s);
        let (s2, rest) = spec_pop_seq(s1, (n - 1) as nat);
        (s2, seq![v] + rest)
    }
}

proof fn lemma_pop_seq_split(s: EmuState, a: nat, b: nat)
    ensures
        ({
            let (t, popped) = spec_pop_seq(s, a + b);
            let (ta, pa) = spec_pop_seq(s, a);
            let (tb, pb) = spec_pop_seq(ta, b);
            t == tb && popped == pa + pb
        }),
    decreases a,
{
    if a == 0 {
        let (t, popped) = spec_pop_seq(s, b);
        assert(spec_pop_seq(s, 0).0 == s);
        assert(popped =~= Seq::<u32>::empty() + popped);
    } else {
        let (s1, v) = spec_pop32(s);
        lemma_pop_seq_split(s1, (a - 1) as nat, b);
        let (ta1, pa1) = spec_pop_seq(s1, (a - 1) as nat);
        let (tb, pb) = spec_pop_seq(ta1, b);
        assert(seq![v] + (pa1 + pb) =~= (seq![v] + pa1) + pb);
    }
}

/// Pushes followed by as many pops with nothing in between: the words come
/// back in reverse order and the registers — the stack pointer among them —
/// return to their old values; only memory below the old stack pointer was
/// written.
pub proof fn lemma_push_pop_roundtrip(s: EmuState, values: Seq<u32>)
    requires
        s.wf(),
        4 * values.len() <= s.esp(),
        s.esp() <= MEMORY_SIZE as u32,
    ensures
        ({
            let (t, popped) = spec_pop_seq(spec_push_seq(s, values), values.len());
            &&& popped.len() == values.len()
            &&& forall|i: int|
                0 <= i < values.len() ==> popped[i] == values[values.len() - 1 - i]
            &&& t.regs == s.regs
            &&& t.eflags == s.eflags
            &&& t.eip == s.eip
            &&& t.mem.len() == s.mem.len()
            &&& forall|i: int| s.esp() <= i < s.mem.len() ==> t.mem[i] == s.mem[i]
        }),
    decreases values.len(),
{
    if values.len() == 0 {
    } else {
        let v0 = values.first();
        let rest = values.drop_first();
        let s1 = spec_push32(s, v0);
        assert(s1.wf());
        assert(s1.esp() == s.esp() - 4);
        lemma_push_pop_roundtrip(s1, rest);
        let (t1, p1) = spec_pop_seq(spec_push_seq(s1, rest), rest.len());
        lemma_pop_seq_split(spec_push_seq(s1, rest), rest.len(), 1);
        let (t2, p2) = spec_pop_seq(t1, 1);

        // The word the final pop reads is the one the first push stored.
        reveal_with_fuel(spec_pop_seq, 2);
        assert(t1.esp() == s.esp() - 4);
        lemma_write_read_u32(s.mem, s.esp() - 4, v0);
        lemma_read_u32_frame(t1.mem, s1.mem, s.esp() - 4);
        assert(le32_at(t1.mem, s.esp() - 4) == v0);
        let (sx, vx) = spec_pop32(t1);
        assert(vx == v0);
        assert(t2 == sx);
        assert(p2 =~= seq![v0]);

        let (t, popped) = spec_pop_seq(spec_push_seq(s, values), values.len());
        assert(spec_push_seq(s, values) == spec_push_seq(s1, rest));
        assert(values.len() == rest.len() + 1);
        assert(t == t2);
        assert(popped =~= p1 + p2);
        assert(t2.regs =~= s.regs);
        assert(forall|i: int| s.esp() <= i < s.mem.len() ==> t2.mem[i] == s.mem[i]);
        assert(forall|i: int|
            0 <= i < values.len() ==> popped[i] == values[values.len() - 1 - i]) by {
            assert(forall|i: int|
                0 <= i < rest.len() ==> p1[i] == rest[rest.len() - 1 - i]);
        }
    }
}

/// Dispatch of MOV r32, imm32: opcode byte `0xB8 + k` with four following
/// bytes `b0 b1 b2 b3` loads register `k` with `b0 | b1<<8 | b2<<16 | b3<<24`
/// and advances EIP by five; nothing else changes.
pub proof fn lemma_mov_r32_imm32_dispatch(s: EmuState, k: u8)
    requires
        s.wf(),
        k < 8,
        s.eip + 5 <= MEMORY_SIZE,
        s.mem[s.eip as int] == 0xB8 + k,
    ensures
        spec_step(s) == Ok::<EmuState, EmuError>(
            EmuState {
                regs: s.regs.update(
                    k as int,
                    (s.mem[s.eip + 1] as u32) | ((s.mem[s.eip + 2] as u32) << 8) | ((s.mem[s.eip
                        + 3] as u32) << 16) | ((s.mem[s.eip + 4] as u32) << 24),
                ),
                eip: (s.eip + 5) as u32,
                ..s
            },
        ),
{
    assert(spec_step(s) == spec_mov_r32_imm32(s));
    assert(spec_step(s)->Ok_0 =~= EmuState {
        regs: s.regs.update(
            k as int,
            (s.mem[s.eip + 1] as u32) | ((s.mem[s.eip + 2] as u32) << 8) | ((s.mem[s.eip + 3]
                as u32) << 16) | ((s.mem[s.eip + 4] as u32) << 24),
        ),
        eip: (s.eip + 5) as u32,
        ..s
    });
}

} // verus!
