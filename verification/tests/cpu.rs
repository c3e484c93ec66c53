use lib::palm::cpu::memory::MemoryMap;
use lib::palm::cpu::ops::{alu, branch, cond, extra, logic, movem, muldiv, shiftmem, system};
use lib::palm::cpu::state::{CpuState68k, StopReason, SR_C, SR_N, SR_V, SR_X, SR_Z};

fn ram(base: u32, len: usize) -> MemoryMap {
    MemoryMap::new(base, vec![0u8; len])
}

#[test]
fn memory_write_then_read_gives_back_the_value() {
    let mut m = ram(0x1000, 16);
    assert!(m.write_u32_be(0x1004, 0xDEAD_BEEF));
    assert_eq!(m.read_u32_be(0x1004), Some(0xDEAD_BEEF));
    assert_eq!(m.read_u16_be(0x1004), Some(0xDEAD));
    assert_eq!(m.read_u8(0x1007), Some(0xEF));
    assert!(m.write_u16_be(0x100E, 0x1234));
    assert_eq!(m.read_u16_be(0x100E), Some(0x1234));
    assert!(m.write_u8(0x1000, 0x7F));
    assert_eq!(m.read_u8(0x1000), Some(0x7F));
}

#[test]
fn memory_outside_the_map_is_refused() {
    let mut m = ram(0x1000, 16);
    assert_eq!(m.read_u8(0x0FFF), None);
    assert_eq!(m.read_u8(0x1010), None);
    assert_eq!(m.read_u16_be(0x100F), None);
    assert_eq!(m.read_u32_be(0x100D), None);
    assert!(!m.write_u32_be(0x100D, 1));
    assert!(!m.write_u8(0x2000, 1));
    assert_eq!(m.read_u32_be(0x100C), Some(0));
}

#[test]
fn new_cpu_is_cleared() {
    let s = CpuState68k::new();
    assert_eq!(s.d, [0; 8]);
    assert_eq!(s.a, [0; 8]);
    assert_eq!(s.pc, 0);
    assert_eq!(s.sr, 0);
    assert!(s.call_stack.is_empty());
}

#[test]
fn neg_byte_twice_restores_the_register() {
    let mut s = CpuState68k::new();
    let mut m = ram(0, 16);
    s.d[0] = 0x1234_5605;
    assert_eq!(alu::execute(0x4400, 0x100, &mut s, &mut m), Ok(true));
    assert_eq!(s.d[0], 0x1234_56FB);
    assert_eq!(s.pc, 0x102);
    assert_ne!(s.sr & SR_N, 0);
    assert_eq!(alu::execute(0x4400, 0x102, &mut s, &mut m), Ok(true));
    assert_eq!(s.d[0], 0x1234_5605);
    assert_eq!(s.sr & SR_N, 0);
}

#[test]
fn neg_long_encoding_negates_the_low_byte() {
    let mut s = CpuState68k::new();
    let mut m = ram(0, 16);
    s.d[1] = 1;
    assert_eq!(alu::execute(0x4481, 0x200, &mut s, &mut m), Ok(true));
    assert_eq!(s.d[1], 0x0000_00FF);
    assert_eq!(s.pc, 0x202);
}

#[test]
fn clr_long_clears_and_sets_zero() {
    let mut s = CpuState68k::new();
    let mut m = ram(0, 16);
    s.d[2] = 0xFFFF_FFFF;
    assert_eq!(alu::execute(0x4282, 0x10, &mut s, &mut m), Ok(true));
    assert_eq!(s.d[2], 0);
    assert_ne!(s.sr & SR_Z, 0);
    assert_eq!(s.pc, 0x12);
}

#[test]
fn cmpi_word_sets_zero_on_equal_and_carry_on_borrow() {
    let mut m = ram(0x100, 16);
    assert!(m.write_u16_be(0x102, 5));
    let mut s = CpuState68k::new();
    s.d[0] = 5;
    assert_eq!(alu::execute(0x0C40, 0x100, &mut s, &mut m), Ok(true));
    assert_ne!(s.sr & SR_Z, 0);
    assert_eq!(s.sr & SR_C, 0);
    assert_eq!(s.pc, 0x104);
    assert_eq!(s.d[0], 5);

    let mut s = CpuState68k::new();
    s.d[0] = 3;
    assert_eq!(alu::execute(0x0C40, 0x100, &mut s, &mut m), Ok(true));
    assert_eq!(s.sr & SR_Z, 0);
    assert_ne!(s.sr & SR_C, 0);
    assert_ne!(s.sr & SR_N, 0);
}

#[test]
fn cmpi_without_its_immediate_is_out_of_bounds() {
    let mut m = ram(0x100, 2);
    let mut s = CpuState68k::new();
    assert_eq!(alu::execute(0x0C40, 0x100, &mut s, &mut m), Err(StopReason::OutOfBounds { pc: 0x100 }));
}

#[test]
fn alu_leaves_other_groups_alone() {
    let mut m = ram(0, 16);
    let mut s = CpuState68k::new();
    assert_eq!(alu::execute(0x4E71, 0x40, &mut s, &mut m), Ok(false));
    assert_eq!(s.pc, 0);
}

#[test]
fn mulu_multiplies_low_words() {
    let mut m = ram(0, 16);
    let mut s = CpuState68k::new();
    s.d[0] = 0xABCD_012C;
    s.d[1] = 200;
    assert_eq!(muldiv::execute(0xC0C1, 0x20, &mut s, &mut m), Ok(true));
    assert_eq!(s.d[0], 60000);
    assert_eq!(s.pc, 0x22);
    assert_eq!(s.sr & (SR_N | SR_Z), 0);
}

#[test]
fn muls_multiplies_signed_words() {
    let mut m = ram(0, 16);
    let mut s = CpuState68k::new();
    s.d[0] = 0xFFFE;
    s.d[1] = 3;
    assert_eq!(muldiv::execute(0xC1C1, 0x20, &mut s, &mut m), Ok(true));
    assert_eq!(s.d[0], (-6i32) as u32);
    assert_ne!(s.sr & SR_N, 0);
}

#[test]
fn divu_puts_remainder_high_and_quotient_low() {
    let mut m = ram(0, 16);
    let mut s = CpuState68k::new();
    s.d[0] = 100;
    s.d[1] = 7;
    assert_eq!(muldiv::execute(0x80C1, 0x30, &mut s, &mut m), Ok(true));
    assert_eq!(s.d[0], (2 << 16) | 14);
    assert_eq!(s.pc, 0x32);
}

#[test]
fn divu_overflow_sets_v_and_keeps_the_register() {
    let mut m = ram(0, 16);
    let mut s = CpuState68k::new();
    s.d[0] = 0x0010_0000;
    s.d[1] = 1;
    s.sr = SR_C;
    assert_eq!(muldiv::execute(0x80C1, 0x30, &mut s, &mut m), Ok(true));
    assert_eq!(s.d[0], 0x0010_0000);
    assert_ne!(s.sr & SR_V, 0);
    assert_eq!(s.sr & SR_C, 0);
}

#[test]
fn divs_rounds_toward_zero() {
    let mut m = ram(0, 16);
    let mut s = CpuState68k::new();
    s.d[0] = (-100i32) as u32;
    s.d[1] = 7;
    assert_eq!(muldiv::execute(0x81C1, 0x30, &mut s, &mut m), Ok(true));
    assert_eq!(s.d[0], (0xFFFE << 16) | 0xFFF2);
    assert_ne!(s.sr & SR_N, 0);
}

#[test]
fn divide_by_zero_is_an_unknown_opcode() {
    let mut m = ram(0, 16);
    let mut s = CpuState68k::new();
    s.d[0] = 100;
    assert_eq!(muldiv::execute(0x80C1, 0x30, &mut s, &mut m), Err(StopReason::UnknownOpcode { pc: 0x30, word: 0x80C1 }));
}

#[test]
fn and_word_into_data_register() {
    let mut m = ram(0, 16);
    let mut s = CpuState68k::new();
    s.d[0] = 0x1234_FF0F;
    s.d[1] = 0x0000_F0F0;
    assert_eq!(logic::execute(0xC041, 0x50, &mut s, &mut m), Ok(true));
    assert_eq!(s.d[0], 0x1234_F000);
    assert_ne!(s.sr & SR_N, 0);
    assert_eq!(s.pc, 0x52);
}

#[test]
fn eor_long_into_data_register() {
    let mut m = ram(0, 16);
    let mut s = CpuState68k::new();
    s.d[0] = 0xFFFF_0000;
    s.d[1] = 0x0F0F_0F0F;
    assert_eq!(logic::execute(0xB380, 0x50, &mut s, &mut m), Ok(true));
    assert_eq!(s.d[0], 0xF0F0_0F0F);
    assert_ne!(s.sr & SR_N, 0);
}

#[test]
fn not_word_inverts_the_low_word() {
    let mut m = ram(0, 16);
    let mut s = CpuState68k::new();
    s.d[0] = 0xAAAA_00FF;
    assert_eq!(extra::execute(0x4640, 0x60, &mut s, &mut m), Ok(true));
    assert_eq!(s.d[0], 0xAAAA_FF00);
    assert_ne!(s.sr & SR_N, 0);
    assert_eq!(s.pc, 0x62);
}

#[test]
fn chk_traps_above_the_bound() {
    let mut m = ram(0, 16);
    let mut s = CpuState68k::new();
    s.d[0] = 10;
    s.d[1] = 5;
    assert_eq!(extra::execute(0x4181, 0x70, &mut s, &mut m), Err(StopReason::Trap { vector: 6, pc: 0x70 }));
    s.d[0] = 3;
    assert_eq!(extra::execute(0x4181, 0x70, &mut s, &mut m), Ok(true));
    assert_eq!(s.pc, 0x72);
}

#[test]
fn movem_push_then_pop_restores_registers() {
    let mut m = ram(0x1000, 64);
    let mut s = CpuState68k::new();
    s.a[7] = 0x1040;
    s.d[0] = 0x1111_1111;
    s.d[1] = 0x2222_2222;
    s.a[6] = 0x3333_3333;
    // MOVEM.L D0-D1/A6,-(A7)
    assert!(m.write_u16_be(0x1002, 0xC002));
    assert_eq!(movem::execute(0x48E7, 0x1000, &mut s, &mut m), Ok(true));
    assert_eq!(s.a[7], 0x1040 - 12);
    assert_eq!(s.pc, 0x1004);
    assert_eq!(m.read_u32_be(0x1034), Some(0x1111_1111));
    assert_eq!(m.read_u32_be(0x1038), Some(0x2222_2222));
    assert_eq!(m.read_u32_be(0x103C), Some(0x3333_3333));
    s.d[0] = 0;
    s.d[1] = 0;
    s.a[6] = 0;
    // MOVEM.L (A7)+,D0-D1/A6
    assert!(m.write_u16_be(0x1006, 0x4003));
    assert_eq!(movem::execute(0x4CDF, 0x1004, &mut s, &mut m), Ok(true));
    assert_eq!(s.d[0], 0x1111_1111);
    assert_eq!(s.d[1], 0x2222_2222);
    assert_eq!(s.a[6], 0x3333_3333);
    assert_eq!(s.a[7], 0x1040);
    assert_eq!(s.pc, 0x1008);
}

#[test]
fn shift_memory_right_keeps_the_sign() {
    let mut m = ram(0x1000, 16);
    let mut s = CpuState68k::new();
    s.a[0] = 0x1008;
    assert!(m.write_u16_be(0x1008, 0x8001));
    assert_eq!(shiftmem::execute(0xE0D0, 0x1000, &mut s, &mut m), Ok(true));
    assert_eq!(m.read_u16_be(0x1008), Some(0xC000));
    assert_ne!(s.sr & SR_C, 0);
    assert_ne!(s.sr & SR_X, 0);
    assert_ne!(s.sr & SR_N, 0);
    assert_eq!(s.pc, 0x1002);
}

#[test]
fn rotate_memory_right_keeps_x() {
    let mut m = ram(0x1000, 16);
    let mut s = CpuState68k::new();
    s.a[0] = 0x1008;
    assert!(m.write_u16_be(0x1008, 0x0001));
    assert_eq!(shiftmem::execute(0xECD0, 0x1000, &mut s, &mut m), Ok(true));
    assert_eq!(m.read_u16_be(0x1008), Some(0x8000));
    assert_ne!(s.sr & SR_C, 0);
    assert_eq!(s.sr & SR_X, 0);
}

#[test]
fn branch_always_and_not_taken() {
    let mut m = ram(0, 0x200);
    let mut s = CpuState68k::new();
    assert_eq!(branch::execute(0x6004, 0x100, &mut s, &mut m), Ok(true));
    assert_eq!(s.pc, 0x106);
    // BEQ with Z clear falls through.
    assert_eq!(branch::execute(0x6704, 0x100, &mut s, &mut m), Ok(true));
    assert_eq!(s.pc, 0x102);
    s.sr = SR_Z;
    assert_eq!(branch::execute(0x6704, 0x100, &mut s, &mut m), Ok(true));
    assert_eq!(s.pc, 0x106);
}

#[test]
fn bsr_pushes_the_return_address() {
    let mut m = ram(0, 0x200);
    let mut s = CpuState68k::new();
    s.a[7] = 0x1F0;
    assert_eq!(branch::execute(0x6110, 0x100, &mut s, &mut m), Ok(true));
    assert_eq!(s.a[7], 0x1EC);
    assert_eq!(m.read_u32_be(0x1EC), Some(0x102));
    assert_eq!(s.call_stack, vec![0x102]);
    assert_eq!(s.pc, 0x112);
}

#[test]
fn branch_with_word_displacement_reads_it() {
    let mut m = ram(0, 0x400);
    assert!(m.write_u16_be(0x102, 0x0100));
    let mut s = CpuState68k::new();
    assert_eq!(branch::execute(0x6000, 0x100, &mut s, &mut m), Ok(true));
    assert_eq!(s.pc, 0x202);
}

#[test]
fn conditions_and_targets() {
    assert!(cond::sr_cond_true(SR_Z, 7));
    assert!(!cond::sr_cond_true(SR_Z, 6));
    assert!(cond::sr_cond_true(0, 0));
    assert!(!cond::sr_cond_true(0xFFFF, 1));
    assert!(cond::sr_cond_true(SR_N | SR_V, 12));
    assert_eq!(cond::target_pc(0x10, 0x20), Some(0x30));
    assert_eq!(cond::target_pc(0x10, -0x20), None);
    assert_eq!(cond::target_pc(u32::MAX, 1), None);
}

#[test]
fn nop_and_trapv() {
    let mut m = ram(0, 16);
    let mut s = CpuState68k::new();
    assert_eq!(system::execute(0x4E71, 0x80, &mut s, &mut m), Ok(true));
    assert_eq!(s.pc, 0x82);
    s.sr = SR_V;
    assert_eq!(system::execute(0x4E76, 0x90, &mut s, &mut m), Err(StopReason::Trap { vector: 7, pc: 0x90 }));
}

#[test]
fn ori_to_ccr_sets_condition_bits() {
    let mut m = ram(0x100, 16);
    assert!(m.write_u16_be(0x102, 0x0015));
    let mut s = CpuState68k::new();
    s.sr = 0x2700;
    assert_eq!(system::execute(0x003C, 0x100, &mut s, &mut m), Ok(true));
    assert_eq!(s.sr, 0x2715);
    assert_eq!(s.pc, 0x104);
}

#[test]
fn ext_words_are_not_movem_even_at_the_top_of_memory() {
    let mut m = ram(0, 16);
    let mut s = CpuState68k::new();
    s.d[0] = 0x1234_8000;
    assert_eq!(movem::execute(0x4880, u32::MAX, &mut s, &mut m), Ok(false));
    assert_eq!(movem::execute(0x48C3, u32::MAX, &mut s, &mut m), Ok(false));
    assert_eq!(s.d[0], 0x1234_8000);
    assert_eq!(s.pc, 0);
}

#[test]
fn eor_twice_gives_the_register_back() {
    let mut m = ram(0, 16);
    let mut s = CpuState68k::new();
    s.d[0] = 0x1357_9BDF;
    s.d[1] = 0xFFFF_0000;
    s.sr = SR_X | SR_V | SR_C;
    assert_eq!(logic::execute(0xB380, u32::MAX, &mut s, &mut m), Ok(true));
    assert_eq!(s.d[0], 0xECA8_9BDF);
    assert_eq!(s.pc, u32::MAX);
    assert_eq!(s.sr & (SR_X | SR_V | SR_C | SR_N), SR_X | SR_N);
    assert_eq!(logic::execute(0xB380, 0x40, &mut s, &mut m), Ok(true));
    assert_eq!(s.d[0], 0x1357_9BDF);
    assert_eq!(s.d[1], 0xFFFF_0000);
    assert_eq!(s.pc, 0x42);
}

#[test]
fn register_ops_without_extension_words_run_at_the_top_of_memory() {
    let mut m = ram(0, 16);
    let mut s = CpuState68k::new();
    s.d[0] = 5;
    assert_eq!(alu::execute(0x4400, u32::MAX, &mut s, &mut m), Ok(true));
    assert_eq!(s.d[0], 0xFB);
    assert_eq!(s.pc, u32::MAX);
    // A short branch from the last address has no target.
    assert_eq!(branch::execute(0x6004, u32::MAX - 1, &mut s, &mut m), Err(StopReason::OutOfBounds { pc: u32::MAX - 1 }));
}
