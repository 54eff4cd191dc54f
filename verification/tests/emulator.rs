use rust_emu::emulator::modrm::ModRM;
use rust_emu::emulator::EmuError;
use rust_emu::emulator::Emulator;
use rust_emu::emulator::MEMORY_SIZE;

const LOAD: u32 = 0x7C00;

fn boot(program: &[u8]) -> Emulator {
    let mut emu = Emulator::new(MEMORY_SIZE, LOAD, LOAD);
    emu.load_image(program);
    emu
}

fn step(emu: &mut Emulator, n: usize) {
    for _ in 0..n {
        emu.exec_instruction().unwrap();
    }
}

#[test]
fn register_load() {
    // MOV EAX, 42 then a jump-to-self.
    let mut emu = boot(&[0xB8, 0x2A, 0x00, 0x00, 0x00, 0xEB, 0xFE]);
    step(&mut emu, 1);
    assert_eq!(emu.get_register32(0), 0x2A);
    assert_eq!(emu.get_eip(), 0x7C05);
}

#[test]
fn short_jump_forward() {
    let mut emu = boot(&[0xEB, 0x05]);
    step(&mut emu, 1);
    assert_eq!(emu.get_eip(), 0x7C07);
}

#[test]
fn compare_sets_flags() {
    // MOV EAX, 5; MOV ECX, 3; CMP EAX, ECX.
    let mut emu = boot(&[
        0xB8, 0x05, 0x00, 0x00, 0x00, 0xB9, 0x03, 0x00, 0x00, 0x00, 0x3B, 0xC1,
    ]);
    step(&mut emu, 3);
    assert!(!emu.is_zero());
    assert!(!emu.is_carry());
    assert!(!emu.is_sign());
    assert!(!emu.is_overflow());
}

#[test]
fn subtraction_underflow() {
    // MOV EAX, 0; SUB EAX, 1.
    let mut emu = boot(&[0xB8, 0x00, 0x00, 0x00, 0x00, 0x83, 0xE8, 0x01]);
    step(&mut emu, 2);
    assert_eq!(emu.get_register32(0), 0xFFFF_FFFF);
    assert!(emu.is_carry());
    assert!(emu.is_sign());
    assert!(!emu.is_zero());
    assert!(!emu.is_overflow());
}

#[test]
fn call_ret_round_trip() {
    // CALL +5 (to 0x7C0A), five bytes of padding, RET.
    let mut emu = boot(&[
        0xE8, 0x05, 0x00, 0x00, 0x00, 0x90, 0x90, 0x90, 0x90, 0x90, 0xC3,
    ]);
    step(&mut emu, 1);
    let esp = emu.get_register32(4);
    assert_eq!(esp, LOAD - 4);
    assert_eq!(emu.get_memory32(esp as usize), 0x7C05);
    assert_eq!(emu.get_eip(), 0x7C0A);
    step(&mut emu, 1);
    assert_eq!(emu.get_eip(), 0x7C05);
    assert_eq!(emu.get_register32(4), LOAD);
}

#[test]
fn jnz_taken_after_nonzero_compare() {
    // CMP leaves ZF = 0, so JNZ +5 advances EIP by 7.
    let mut emu = boot(&[
        0xB8, 0x05, 0x00, 0x00, 0x00, 0xB9, 0x03, 0x00, 0x00, 0x00, 0x3B, 0xC1, 0x75, 0x05,
    ]);
    step(&mut emu, 4);
    assert_eq!(emu.get_eip(), 0x7C0C + 7);
}

#[test]
fn jnz_not_taken_after_zero_compare() {
    // CMP leaves ZF = 1, so JNZ +5 advances EIP by 2.
    let mut emu = boot(&[
        0xB8, 0x03, 0x00, 0x00, 0x00, 0xB9, 0x03, 0x00, 0x00, 0x00, 0x3B, 0xC1, 0x75, 0x05,
    ]);
    step(&mut emu, 4);
    assert_eq!(emu.get_eip(), 0x7C0C + 2);
}

#[test]
fn memory_word_round_trip() {
    let mut emu = Emulator::new(MEMORY_SIZE, 0, 0x1000);
    emu.set_memory32(0x1000, 0xDEAD_BEEF);
    assert_eq!(emu.get_memory32(0x1000), 0xDEAD_BEEF);
    // A store elsewhere leaves the word alone.
    emu.set_memory32(0x2000, 0x1234_5678);
    assert_eq!(emu.get_memory32(0x1000), 0xDEAD_BEEF);
    // A store into the word changes it.
    emu.set_memory8(0x1001, 0x42);
    assert_eq!(emu.get_memory32(0x1000), 0xDEAD_42EF);
}

#[test]
fn memory_little_endian_layout() {
    let mut emu = Emulator::new(MEMORY_SIZE, 0, 0x1000);
    emu.set_memory32(0x3000, 0x0403_0201);
    assert_eq!(emu.get_memory8(0x3000), 1);
    assert_eq!(emu.get_memory8(0x3001), 2);
    assert_eq!(emu.get_memory8(0x3002), 3);
    assert_eq!(emu.get_memory8(0x3003), 4);
}

#[test]
fn eflags_sub_equal_operands() {
    let mut emu = Emulator::new(MEMORY_SIZE, 0, 0x1000);
    emu.update_eflags_sub(7, 7, 7u64.wrapping_sub(7));
    assert!(emu.is_zero());
    assert!(!emu.is_carry());
    assert!(!emu.is_sign());
    assert!(!emu.is_overflow());
}

#[test]
fn eflags_sub_borrow() {
    let mut emu = Emulator::new(MEMORY_SIZE, 0, 0x1000);
    emu.update_eflags_sub(0, 1, 0u64.wrapping_sub(1));
    assert!(emu.is_carry());
    assert!(emu.is_sign());
    assert!(!emu.is_zero());
    assert!(!emu.is_overflow());
}

#[test]
fn eflags_sub_signed_overflow() {
    // INT_MIN - 1 overflows as a signed subtraction.
    let mut emu = Emulator::new(MEMORY_SIZE, 0, 0x1000);
    emu.update_eflags_sub(0x8000_0000, 1, 0x8000_0000u64.wrapping_sub(1));
    assert!(emu.is_overflow());
    assert!(!emu.is_carry());
    assert!(!emu.is_zero());
    assert!(!emu.is_sign());
}

#[test]
fn push_pop_lifo_order() {
    let mut emu = Emulator::new(MEMORY_SIZE, 0, 0x7C00);
    emu.push32(1);
    emu.push32(2);
    emu.push32(3);
    assert_eq!(emu.pop32(), 3);
    assert_eq!(emu.pop32(), 2);
    assert_eq!(emu.pop32(), 1);
    assert_eq!(emu.get_register32(4), 0x7C00);
}

#[test]
fn mov_imm32_each_byte_weighted() {
    // MOV EBX, 0x12345678: opcode 0xB8 + 3, bytes little-endian.
    let mut emu = boot(&[0xBB, 0x78, 0x56, 0x34, 0x12]);
    step(&mut emu, 1);
    assert_eq!(emu.get_register32(3), 0x1234_5678);
    assert_eq!(emu.get_eip(), 0x7C05);
}

#[test]
fn mov_between_register_and_memory() {
    // MOV EAX, 42; MOV EBP, 0x8000; MOV [EBP-8], EAX; MOV ECX, [EBP-8].
    let mut emu = boot(&[
        0xB8, 0x2A, 0x00, 0x00, 0x00, 0xBD, 0x00, 0x80, 0x00, 0x00, 0x89, 0x45, 0xF8, 0x8B, 0x4D,
        0xF8,
    ]);
    step(&mut emu, 3);
    assert_eq!(emu.get_memory32(0x7FF8), 42);
    step(&mut emu, 1);
    assert_eq!(emu.get_register32(1), 42);
}

#[test]
fn mov_rm32_imm32_absolute() {
    // MOV [0x2000], 0x99 with the mod=0, rm=5 absolute form.
    let mut emu = boot(&[
        0xC7, 0x05, 0x00, 0x20, 0x00, 0x00, 0x99, 0x00, 0x00, 0x00,
    ]);
    step(&mut emu, 1);
    assert_eq!(emu.get_memory32(0x2000), 0x99);
    assert_eq!(emu.get_eip(), 0x7C0A);
}

#[test]
fn add_register_to_register() {
    // MOV EAX, 5; MOV ECX, 7; ADD EAX, ECX.
    let mut emu = boot(&[
        0xB8, 0x05, 0x00, 0x00, 0x00, 0xB9, 0x07, 0x00, 0x00, 0x00, 0x01, 0xC8,
    ]);
    step(&mut emu, 3);
    assert_eq!(emu.get_register32(0), 12);
}

#[test]
fn add_imm8_positive_and_negative() {
    // MOV EAX, 10; ADD EAX, 20; ADD EAX, -2.
    let mut emu = boot(&[
        0xB8, 0x0A, 0x00, 0x00, 0x00, 0x83, 0xC0, 0x14, 0x83, 0xC0, 0xFE,
    ]);
    step(&mut emu, 2);
    assert_eq!(emu.get_register32(0), 30);
    step(&mut emu, 1);
    assert_eq!(emu.get_register32(0), 28);
}

#[test]
fn inc_rm32_register() {
    // INC EAX twice.
    let mut emu = boot(&[0xFF, 0xC0, 0xFF, 0xC0]);
    step(&mut emu, 2);
    assert_eq!(emu.get_register32(0), 2);
}

#[test]
fn push_imm8_zero_extends() {
    // PUSH 0xFF stores 0x000000FF: the byte is zero-extended, not
    // sign-extended.
    let mut emu = boot(&[0x6A, 0xFF]);
    step(&mut emu, 1);
    assert_eq!(emu.get_register32(4), LOAD - 4);
    assert_eq!(emu.get_memory32((LOAD - 4) as usize), 0xFF);
    assert_eq!(emu.get_eip(), 0x7C02);
}

#[test]
fn push_imm32_and_pop() {
    // PUSH 0x11223344; POP EDX.
    let mut emu = boot(&[0x68, 0x44, 0x33, 0x22, 0x11, 0x5A]);
    step(&mut emu, 2);
    assert_eq!(emu.get_register32(2), 0x1122_3344);
    assert_eq!(emu.get_register32(4), LOAD);
}

#[test]
fn push_r32_pop_r32() {
    // MOV EAX, 9; PUSH EAX; POP ECX.
    let mut emu = boot(&[0xB8, 0x09, 0x00, 0x00, 0x00, 0x50, 0x59]);
    step(&mut emu, 3);
    assert_eq!(emu.get_register32(1), 9);
    assert_eq!(emu.get_register32(4), LOAD);
    assert_eq!(emu.get_eip(), 0x7C07);
}

#[test]
fn leave_restores_frame() {
    let mut emu = boot(&[0xC9]);
    emu.set_memory32(0x7B00, 0x1234);
    emu.set_register32(5, 0x7B00);
    step(&mut emu, 1);
    assert_eq!(emu.get_register32(4), 0x7B04);
    assert_eq!(emu.get_register32(5), 0x1234);
    assert_eq!(emu.get_eip(), 0x7C01);
}

#[test]
fn near_jump_backward() {
    // JMP rel32 of -5: back to the start of the instruction.
    let mut emu = boot(&[0xE9, 0xFB, 0xFF, 0xFF, 0xFF]);
    step(&mut emu, 1);
    assert_eq!(emu.get_eip(), LOAD);
}

#[test]
fn short_jump_backward() {
    // EB FE: jump to self.
    let mut emu = boot(&[0xEB, 0xFE]);
    step(&mut emu, 1);
    assert_eq!(emu.get_eip(), LOAD);
}

#[test]
fn conditional_jumps_read_their_flags() {
    // JC taken after a borrow: MOV EAX, 0; SUB EAX, 1; JC +2.
    let mut emu = boot(&[
        0xB8, 0x00, 0x00, 0x00, 0x00, 0x83, 0xE8, 0x01, 0x72, 0x02,
    ]);
    step(&mut emu, 3);
    assert_eq!(emu.get_eip(), 0x7C08 + 4);

    // JNC falls through after the same program.
    let mut emu = boot(&[
        0xB8, 0x00, 0x00, 0x00, 0x00, 0x83, 0xE8, 0x01, 0x73, 0x02,
    ]);
    step(&mut emu, 3);
    assert_eq!(emu.get_eip(), 0x7C08 + 2);
}

#[test]
fn jl_follows_signed_order() {
    // MOV EAX, 3; CMP EAX, 5 (0x83 /7 with imm8 5) leaves SF != OF; JL +2.
    let mut emu = boot(&[
        0xB8, 0x03, 0x00, 0x00, 0x00, 0x83, 0xF8, 0x05, 0x7C, 0x02,
    ]);
    step(&mut emu, 3);
    assert_eq!(emu.get_eip(), 0x7C08 + 4);
}

#[test]
fn jle_taken_on_equality() {
    // MOV EAX, 5; CMP EAX, 5; JLE +3.
    let mut emu = boot(&[
        0xB8, 0x05, 0x00, 0x00, 0x00, 0x83, 0xF8, 0x05, 0x7E, 0x03,
    ]);
    step(&mut emu, 3);
    assert_eq!(emu.get_eip(), 0x7C08 + 5);
}

#[test]
fn js_and_jz_taken() {
    // MOV EAX, 0; SUB EAX, 1 sets SF; JS +1.
    let mut emu = boot(&[
        0xB8, 0x00, 0x00, 0x00, 0x00, 0x83, 0xE8, 0x01, 0x78, 0x01,
    ]);
    step(&mut emu, 3);
    assert_eq!(emu.get_eip(), 0x7C08 + 3);

    // MOV EAX, 1; SUB EAX, 1 sets ZF; JZ +1.
    let mut emu = boot(&[
        0xB8, 0x01, 0x00, 0x00, 0x00, 0x83, 0xE8, 0x01, 0x74, 0x01,
    ]);
    step(&mut emu, 3);
    assert_eq!(emu.get_eip(), 0x7C08 + 3);
}

#[test]
fn unknown_opcode_is_refused() {
    let mut emu = boot(&[0x90]);
    assert_eq!(
        emu.exec_instruction(),
        Err(EmuError::NotImplementedOpcode(0x90))
    );
    // An opcode outside the table leaves the whole state untouched.
    assert_eq!(emu.get_eip(), LOAD);
    for i in 0..8 {
        assert_eq!(emu.get_register32(i), if i == 4 { LOAD } else { 0 });
    }
    assert!(!emu.is_carry() && !emu.is_zero() && !emu.is_sign() && !emu.is_overflow());
}

#[test]
fn unknown_group_83_sub_opcode() {
    // 0x83 /3 (SBB) is not implemented: ModR/M 0xD8 has reg = 3.
    let mut emu = boot(&[0x83, 0xD8, 0x01]);
    assert_eq!(
        emu.exec_instruction(),
        Err(EmuError::NotImplementedSubOpcode(0x83, 3))
    );
}

#[test]
fn unknown_group_ff_sub_opcode() {
    // 0xFF /2 (CALL r/m32) is not implemented: ModR/M 0xD0 has reg = 2.
    let mut emu = boot(&[0xFF, 0xD0]);
    assert_eq!(
        emu.exec_instruction(),
        Err(EmuError::NotImplementedSubOpcode(0xFF, 2))
    );
}

#[test]
fn sib_addressing_is_refused() {
    // MOV EAX, [..] with mod = 0, rm = 4 would need the SIB byte.
    let mut emu = boot(&[0x8B, 0x04, 0x00]);
    assert_eq!(
        emu.exec_instruction(),
        Err(EmuError::NotImplementedModRM(0, 4))
    );
    // Decoding consumed the opcode, the ModR/M byte and the SIB byte, but
    // registers, memory and flags are untouched.
    assert_eq!(emu.get_eip(), LOAD + 3);
    for i in 0..8 {
        assert_eq!(emu.get_register32(i), if i == 4 { LOAD } else { 0 });
    }
    assert!(!emu.is_carry() && !emu.is_zero() && !emu.is_sign() && !emu.is_overflow());
}

#[test]
fn register_form_has_no_address() {
    let emu = Emulator::new(MEMORY_SIZE, 0, 0x1000);
    let modrm = ModRM {
        mode: 3,
        reg: 0,
        rm: 0,
        sib: 0,
        disp: 0,
    };
    assert_eq!(
        emu.calc_memory_address(&modrm),
        Err(EmuError::NotImplementedModRM(3, 0))
    );
}

#[test]
fn push_with_empty_stack_is_refused() {
    let mut emu = Emulator::new(MEMORY_SIZE, LOAD, 0);
    emu.load_image(&[0x50]);
    assert_eq!(
        emu.exec_instruction(),
        Err(EmuError::OutOfRangeAccess(0))
    );
}

#[test]
fn immediate_past_end_of_memory_is_refused() {
    let mut emu = Emulator::new(MEMORY_SIZE, (MEMORY_SIZE - 1) as u32, 0x1000);
    emu.set_memory8(MEMORY_SIZE - 1, 0xB8);
    assert_eq!(
        emu.exec_instruction(),
        Err(EmuError::OutOfRangeAccess(MEMORY_SIZE as u32))
    );
}

#[test]
fn run_to_clean_end() {
    // PUSH 0; RET pops the zero: EIP reaches 0, the end-of-program signal.
    let mut emu = boot(&[0x68, 0x00, 0x00, 0x00, 0x00, 0xC3]);
    assert_eq!(emu.run_instructions(1000), Ok(true));
    assert_eq!(emu.get_eip(), 0);
}

#[test]
fn run_exhausts_step_budget() {
    // A jump to itself never ends; the step budget does.
    let mut emu = boot(&[0xEB, 0xFE]);
    assert_eq!(emu.run_instructions(10), Ok(false));
    assert_eq!(emu.get_eip(), LOAD);
}

#[test]
fn run_reports_first_error() {
    let mut emu = boot(&[0x90]);
    assert_eq!(
        emu.run_instructions(1000),
        Err(EmuError::NotImplementedOpcode(0x90))
    );
}

#[test]
fn sign_extension_of_code_bytes() {
    let mut emu = Emulator::new(MEMORY_SIZE, 0x100, 0x1000);
    emu.set_memory8(0x100, 0xFE);
    emu.set_memory8(0x101, 0x7F);
    assert_eq!(emu.get_sign_code8(0), -2);
    assert_eq!(emu.get_sign_code8(1), 127);
    assert_eq!(emu.get_code8(0), 0xFE);
    emu.set_memory32(0x104, 0xFFFF_FFFE);
    assert_eq!(emu.get_sign_code32(4), -2);
    assert_eq!(emu.get_code32(4), 0xFFFF_FFFE);
}

#[test]
fn load_image_fills_only_the_load_window() {
    let mut emu = Emulator::new(MEMORY_SIZE, LOAD, LOAD);
    emu.load_image(&[1, 2, 3]);
    assert_eq!(emu.get_memory8(0x7C00), 1);
    assert_eq!(emu.get_memory8(0x7C01), 2);
    assert_eq!(emu.get_memory8(0x7C02), 3);
    assert_eq!(emu.get_memory8(0x7C03), 0);
    assert_eq!(emu.get_memory8(0x7BFF), 0);
}

#[test]
fn modrm_accessors() {
    let modrm = ModRM::new();
    assert_eq!(modrm.get_opecode(), 0);
    assert_eq!(modrm.get_reg_index(), 0);
    assert_eq!(modrm.get_disp32(), 0);
    assert_eq!(modrm.get_disp8(), 0);

    let modrm = ModRM {
        mode: 1,
        reg: 2,
        rm: 3,
        sib: 0,
        disp: 0xFFFF_FFF8,
    };
    assert_eq!(modrm.get_opecode(), 2);
    assert_eq!(modrm.get_reg_index(), 2);
    assert_eq!(modrm.get_disp32(), 0xFFFF_FFF8);
    assert_eq!(modrm.get_disp8(), -8);
}

#[test]
fn registers_start_zero_except_esp() {
    let emu = Emulator::new(MEMORY_SIZE, LOAD, 0x1234);
    for i in 0..8 {
        if i == 4 {
            assert_eq!(emu.get_register32(i), 0x1234);
        } else {
            assert_eq!(emu.get_register32(i), 0);
        }
    }
    assert_eq!(emu.get_eip(), LOAD);
}
