use gbemu::cpu::{Target, CPU};

fn cpu_at(pc: u16) -> CPU {
    let mut c = CPU::new();
    c.registers.pc = pc;
    c.registers.sp = 0xD000;
    c
}

fn flags(c: &CPU) -> (bool, bool, bool, bool) {
    (c.registers.get_zero(), c.registers.get_sub(), c.registers.get_half(), c.registers.get_carry())
}

#[test]
fn new_cpu() {
    let c = CPU::new();
    assert!(c.ime);
    assert_eq!(c.delay, 4);
    assert!(!c.halted && !c.pause && !c.debug && !c.ime_delay);
    assert!(c.trace.is_empty());
    assert_eq!(c.registers.pc, 0x100);
}

#[test]
fn init_sets_boot_values() {
    let mut c = CPU::new();
    c.init();
    assert_eq!(c.registers.get_af(), 0x01B0);
    assert_eq!(c.registers.get_bc(), 0x0013);
    assert_eq!(c.registers.get_de(), 0x00D8);
    assert_eq!(c.registers.get_hl(), 0x014D);
    assert_eq!(c.registers.sp, 0xFFFE);
    assert_eq!(c.memory.rb(0xFF40), 0x91);
}

#[test]
fn load_rom_reads_cart_type_from_rom_image() {
    let mut c = CPU::new();
    let boot = vec![0x31u8; 0x100];
    let cart = vec![0x01u8; 0x8000];
    c.load_rom(&boot, &cart);
    assert_eq!(c.memory.bios[0xFF], 0x31);
    assert_eq!(c.memory.rom.len(), 0x2FFFFF + 0x8000);
    assert_eq!(c.memory.carttype, 0);
}

#[test]
fn ld_takes_the_low_bits() {
    let mut c = CPU::new();
    c.ld(Target::HL, 0x12345);
    assert_eq!(c.registers.get_hl(), 0x2345);
    c.ld(Target::B, 0x1FF);
    assert_eq!(c.registers.b, 0xFF);
    c.ld(Target::SP, 0xBEEF);
    assert_eq!(c.registers.sp, 0xBEEF);
    c.ld(Target::AF, 0x12FF);
    assert_eq!(c.registers.get_af(), 0x12F0);
}

#[test]
fn nop_and_stop() {
    let mut c = cpu_at(0xC000);
    assert_eq!(c.execute(0x00, 0), 4);
    assert_eq!(c.registers.pc, 0xC001);
    assert_eq!(c.execute(0x10, 0), 4);
    assert_eq!(c.registers.pc, 0xC003);
}

#[test]
fn load_immediates() {
    let mut c = cpu_at(0xC000);
    assert_eq!(c.execute(0x01, 0x1234), 12);
    assert_eq!(c.registers.get_bc(), 0x1234);
    assert_eq!(c.registers.pc, 0xC003);
    assert_eq!(c.execute(0x3E, 0x42), 8);
    assert_eq!(c.registers.a, 0x42);
    assert_eq!(c.execute(0x31, 0xCFF0), 12);
    assert_eq!(c.registers.sp, 0xCFF0);
}

#[test]
fn register_to_register_loads() {
    let mut c = cpu_at(0xC000);
    c.registers.b = 7;
    assert_eq!(c.execute(0x78, 0), 4);
    assert_eq!(c.registers.a, 7);
    c.registers.set_hl(0xC100);
    assert_eq!(c.execute(0x77, 0), 8);
    assert_eq!(c.memory.rb(0xC100), 7);
    assert_eq!(c.execute(0x4E, 0), 8);
    assert_eq!(c.registers.c, 7);
}

#[test]
fn halt_sets_halted() {
    let mut c = cpu_at(0xC000);
    assert_eq!(c.execute(0x76, 0), 4);
    assert!(c.halted);
    assert_eq!(c.registers.pc, 0xC001);
}

#[test]
fn add_sets_half_carry_and_carry() {
    let mut c = cpu_at(0xC000);
    c.registers.a = 0x3A;
    c.registers.b = 0xC6;
    assert_eq!(c.execute(0x80, 0), 4);
    assert_eq!(c.registers.a, 0x00);
    assert_eq!(flags(&c), (true, false, true, true));
}

#[test]
fn sub_compare_and_borrow() {
    let mut c = cpu_at(0xC000);
    c.registers.a = 0x3E;
    c.registers.e = 0x3E;
    c.execute(0x93, 0);
    assert_eq!(c.registers.a, 0);
    assert_eq!(flags(&c), (true, true, false, false));
    c.registers.a = 0x3E;
    c.execute(0xFE, 0x40);
    assert_eq!(c.registers.a, 0x3E);
    assert_eq!(flags(&c), (false, true, false, true));
}

#[test]
fn adc_and_sbc_use_the_carry() {
    let mut c = cpu_at(0xC000);
    c.registers.a = 0xE1;
    c.registers.set_carry(true);
    assert_eq!(c.execute(0xCE, 0x0F), 8);
    assert_eq!(c.registers.a, 0xF1);
    assert_eq!(flags(&c), (false, false, true, false));
    c.registers.a = 0x3B;
    c.registers.set_carry(true);
    c.execute(0xDE, 0x2A);
    assert_eq!(c.registers.a, 0x10);
    assert_eq!(flags(&c), (false, true, false, false));
}

#[test]
fn logic_operations() {
    let mut c = cpu_at(0xC000);
    c.registers.a = 0x5A;
    c.execute(0xE6, 0x3F);
    assert_eq!(c.registers.a, 0x1A);
    assert_eq!(flags(&c), (false, false, true, false));
    c.execute(0xF6, 0x80);
    assert_eq!(c.registers.a, 0x9A);
    c.execute(0xAF, 0);
    assert_eq!(c.registers.a, 0);
    assert_eq!(flags(&c), (true, false, false, false));
}

#[test]
fn inc_and_dec_flags() {
    let mut c = cpu_at(0xC000);
    c.registers.b = 0x0F;
    c.registers.set_carry(true);
    c.execute(0x04, 0);
    assert_eq!(c.registers.b, 0x10);
    assert_eq!(flags(&c), (false, false, true, true));
    c.registers.c = 0x01;
    c.execute(0x0D, 0);
    assert_eq!(c.registers.c, 0);
    assert_eq!(flags(&c), (true, true, false, true));
    c.registers.c = 0x00;
    c.execute(0x0D, 0);
    assert_eq!(c.registers.c, 0xFF);
    assert_eq!(flags(&c), (false, true, true, true));
}

#[test]
fn inc_then_dec_pair_restores_it() {
    let mut c = cpu_at(0xC000);
    c.registers.set_bc(0xFFFF);
    c.execute(0x03, 0);
    assert_eq!(c.registers.get_bc(), 0);
    c.execute(0x0B, 0);
    assert_eq!(c.registers.get_bc(), 0xFFFF);
}

#[test]
fn inc_and_dec_at_hl() {
    let mut c = cpu_at(0xC000);
    c.registers.set_hl(0xC100);
    c.memory.wb(0xC100, 0x0F);
    assert_eq!(c.execute(0x34, 0), 12);
    assert_eq!(c.memory.rb(0xC100), 0x10);
    assert_eq!(flags(&c), (false, false, true, false));
    c.memory.wb(0xC100, 0x01);
    assert_eq!(c.execute(0x35, 0), 12);
    assert_eq!(c.memory.rb(0xC100), 0);
    assert_eq!(flags(&c), (true, true, false, false));
}

#[test]
fn add_then_sub_restores_a() {
    let mut c = cpu_at(0xC000);
    c.registers.a = 0x9C;
    c.execute(0xC6, 0x77);
    c.execute(0xD6, 0x77);
    assert_eq!(c.registers.a, 0x9C);
}

#[test]
fn add_to_hl_keeps_zero() {
    let mut c = cpu_at(0xC000);
    c.registers.set_hl(0x8A23);
    c.registers.set_bc(0x0605);
    c.registers.set_zero(true);
    assert_eq!(c.execute(0x09, 0), 8);
    assert_eq!(c.registers.get_hl(), 0x9028);
    assert_eq!(flags(&c), (true, false, true, false));
    c.registers.set_hl(0x8A23);
    c.execute(0x29, 0);
    assert_eq!(c.registers.get_hl(), 0x1446);
    assert_eq!(flags(&c), (true, false, true, true));
}

#[test]
fn daa_after_addition() {
    let mut c = cpu_at(0xC000);
    c.registers.a = 0x15;
    c.execute(0xC6, 0x27);
    assert_eq!(c.registers.a, 0x3C);
    c.execute(0x27, 0);
    assert_eq!(c.registers.a, 0x42);
    assert!(!c.registers.get_carry());
}

#[test]
fn daa_after_subtraction() {
    let mut c = cpu_at(0xC000);
    c.registers.a = 0x42;
    c.execute(0xD6, 0x15);
    c.execute(0x27, 0);
    assert_eq!(c.registers.a, 0x27);
}

#[test]
fn cpl_twice_restores_a() {
    let mut c = cpu_at(0xC000);
    c.registers.a = 0x35;
    c.execute(0x2F, 0);
    assert_eq!(c.registers.a, 0xCA);
    assert!(c.registers.get_sub() && c.registers.get_half());
    c.execute(0x2F, 0);
    assert_eq!(c.registers.a, 0x35);
}

#[test]
fn scf_and_ccf() {
    let mut c = cpu_at(0xC000);
    c.execute(0x37, 0);
    assert!(c.registers.get_carry());
    c.execute(0x3F, 0);
    assert!(!c.registers.get_carry());
}

#[test]
fn rotates_of_a() {
    let mut c = cpu_at(0xC000);
    c.registers.a = 0x85;
    c.execute(0x07, 0);
    assert_eq!(c.registers.a, 0x0B);
    assert_eq!(flags(&c), (false, false, false, true));
    c.execute(0x0F, 0);
    assert_eq!(c.registers.a, 0x85);
    c.registers.set_carry(false);
    c.execute(0x17, 0);
    assert_eq!(c.registers.a, 0x0A);
    assert!(c.registers.get_carry());
    c.execute(0x1F, 0);
    assert_eq!(c.registers.a, 0x85);
}

#[test]
fn relative_jumps() {
    let mut c = cpu_at(0xC000);
    assert_eq!(c.execute(0x18, 0xFE), 12);
    assert_eq!(c.registers.pc, 0xC000);
    c.registers.set_zero(true);
    assert_eq!(c.execute(0x20, 0x10), 8);
    assert_eq!(c.registers.pc, 0xC002);
    assert_eq!(c.execute(0x28, 0x10), 12);
    assert_eq!(c.registers.pc, 0xC014);
}

#[test]
fn absolute_jumps() {
    let mut c = cpu_at(0xC000);
    assert_eq!(c.execute(0xC3, 0x1234), 16);
    assert_eq!(c.registers.pc, 0x1234);
    c.registers.set_carry(false);
    assert_eq!(c.execute(0xDA, 0x4000), 12);
    assert_eq!(c.registers.pc, 0x1237);
    c.registers.set_hl(0xC123);
    assert_eq!(c.execute(0xE9, 0), 4);
    assert_eq!(c.registers.pc, 0xC123);
}

#[test]
fn call_and_return() {
    let mut c = cpu_at(0xC000);
    assert_eq!(c.execute(0xCD, 0x1234), 24);
    assert_eq!(c.registers.pc, 0x1234);
    assert_eq!(c.registers.sp, 0xCFFE);
    assert_eq!(c.memory.rb(0xCFFF), 0xC0);
    assert_eq!(c.memory.rb(0xCFFE), 0x03);
    assert_eq!(c.execute(0xC9, 0), 16);
    assert_eq!(c.registers.pc, 0xC003);
    assert_eq!(c.registers.sp, 0xD000);
}

#[test]
fn conditional_return_not_taken() {
    let mut c = cpu_at(0xC000);
    c.registers.set_zero(true);
    assert_eq!(c.execute(0xC0, 0), 8);
    assert_eq!(c.registers.pc, 0xC001);
}

#[test]
fn restart_and_reti() {
    let mut c = cpu_at(0xC000);
    c.ime = false;
    assert_eq!(c.execute(0xEF, 0), 16);
    assert_eq!(c.registers.pc, 0x28);
    assert_eq!(c.execute(0xD9, 0), 16);
    assert_eq!(c.registers.pc, 0xC001);
    assert!(c.ime);
}

#[test]
fn push_and_pop_af_masks_flags() {
    let mut c = cpu_at(0xC000);
    c.registers.a = 0x12;
    c.registers.set_zero(true);
    c.registers.set_carry(true);
    assert_eq!(c.execute(0xF5, 0), 16);
    assert_eq!(c.memory.rb(0xCFFF), 0x12);
    assert_eq!(c.memory.rb(0xCFFE), 0x90);
    c.memory.wb(0xCFFE, 0xFF);
    c.registers.a = 0;
    assert_eq!(c.execute(0xF1, 0), 12);
    assert_eq!(c.registers.a, 0x12);
    assert_eq!(c.registers.get_f(), 0xF0);
    assert_eq!(c.registers.sp, 0xD000);
}

#[test]
fn push_then_pop_pair() {
    let mut c = cpu_at(0xC000);
    c.registers.set_de(0xBEEF);
    c.execute(0xD5, 0);
    c.execute(0xC1, 0);
    assert_eq!(c.registers.get_bc(), 0xBEEF);
    assert_eq!(c.registers.sp, 0xD000);
}

#[test]
fn high_page_loads() {
    let mut c = cpu_at(0xC000);
    c.registers.a = 0x55;
    assert_eq!(c.execute(0xE0, 0x80), 12);
    assert_eq!(c.memory.rb(0xFF80), 0x55);
    c.registers.a = 0;
    assert_eq!(c.execute(0xF0, 0x80), 12);
    assert_eq!(c.registers.a, 0x55);
    c.registers.c = 0x81;
    assert_eq!(c.execute(0xE2, 0), 8);
    assert_eq!(c.memory.rb(0xFF81), 0x55);
}

#[test]
fn indirect_loads_step_hl() {
    let mut c = cpu_at(0xC000);
    c.registers.set_hl(0xC100);
    c.registers.a = 9;
    c.execute(0x22, 0);
    assert_eq!(c.registers.get_hl(), 0xC101);
    c.execute(0x32, 0);
    assert_eq!(c.registers.get_hl(), 0xC100);
    assert_eq!(c.memory.rb(0xC100), 9);
    assert_eq!(c.memory.rb(0xC101), 9);
    c.registers.a = 0;
    c.execute(0x2A, 0);
    assert_eq!(c.registers.a, 9);
    assert_eq!(c.registers.get_hl(), 0xC101);
}

#[test]
fn store_sp_at_address() {
    let mut c = cpu_at(0xC000);
    c.registers.sp = 0xBEEF;
    assert_eq!(c.execute(0x08, 0xC100), 20);
    assert_eq!(c.memory.rb(0xC100), 0xEF);
    assert_eq!(c.memory.rb(0xC101), 0xBE);
}

#[test]
fn stack_pointer_arithmetic() {
    let mut c = cpu_at(0xC000);
    c.registers.sp = 0x00FF;
    assert_eq!(c.execute(0xF8, 0x01), 12);
    assert_eq!(c.registers.get_hl(), 0x0100);
    assert_eq!(flags(&c), (false, false, true, true));
    c.registers.sp = 0x1000;
    assert_eq!(c.execute(0xE8, 0xFF), 16);
    assert_eq!(c.registers.sp, 0x0FFF);
    assert_eq!(flags(&c), (false, false, false, false));
    c.registers.set_hl(0xC0DE);
    assert_eq!(c.execute(0xF9, 0), 8);
    assert_eq!(c.registers.sp, 0xC0DE);
}

#[test]
fn interrupt_enable_and_disable() {
    let mut c = cpu_at(0xC000);
    c.execute(0xF3, 0);
    assert!(!c.ime);
    c.execute(0xFB, 0);
    assert!(c.ime_delay);
    assert!(!c.ime);
}

#[test]
fn prefixed_swap() {
    let mut c = cpu_at(0xC000);
    c.memory.wb(0xC001, 0x37);
    c.registers.a = 0xF1;
    assert_eq!(c.execute(0xCB, 0), 8);
    assert_eq!(c.registers.a, 0x1F);
    assert_eq!(c.registers.pc, 0xC002);
}

#[test]
fn prefixed_operations_direct() {
    let mut c = cpu_at(0xC000);
    c.registers.h = 0x80;
    assert_eq!(c.execute_cb(0x7C, 0), 8);
    assert_eq!(flags(&c).0, false);
    assert!(c.registers.get_half());
    c.registers.set_hl(0xC100);
    c.memory.wb(0xC100, 0xFF);
    assert_eq!(c.execute_cb(0x86, 0), 16);
    assert_eq!(c.memory.rb(0xC100), 0xFE);
    assert_eq!(c.execute_cb(0x46, 0), 12);
    assert!(c.registers.get_zero());
    assert_eq!(c.execute_cb(0xC6, 0), 16);
    assert_eq!(c.memory.rb(0xC100), 0xFF);
    assert_eq!(c.execute_cb(0x3E, 0), 16);
    assert_eq!(c.memory.rb(0xC100), 0x7F);
    assert!(c.registers.get_carry());
}

#[test]
fn prefixed_shifts() {
    let mut c = cpu_at(0xC000);
    c.registers.b = 0x81;
    c.execute_cb(0x28, 0);
    assert_eq!(c.registers.b, 0xC0);
    assert!(c.registers.get_carry());
    c.execute_cb(0x20, 0);
    assert_eq!(c.registers.b, 0x80);
    c.registers.set_carry(false);
    c.registers.c = 0x01;
    c.execute_cb(0x19, 0);
    assert_eq!(c.registers.c, 0x00);
    assert!(c.registers.get_zero() && c.registers.get_carry());
    c.execute_cb(0x11, 0);
    assert_eq!(c.registers.c, 0x01);
}

#[test]
fn swap_twice_and_rotations_undo() {
    let mut c = cpu_at(0xC000);
    c.registers.d = 0xA5;
    c.execute_cb(0x32, 0);
    assert_eq!(c.registers.d, 0x5A);
    c.execute_cb(0x32, 0);
    assert_eq!(c.registers.d, 0xA5);
    c.execute_cb(0x02, 0);
    c.execute_cb(0x0A, 0);
    assert_eq!(c.registers.d, 0xA5);
}

#[test]
fn a_frame_of_a_tight_loop() {
    let mut c = cpu_at(0xC000);
    c.memory.wb(0xC000, 0x18);
    c.memory.wb(0xC001, 0xFE);
    assert!(c.step());
    assert_eq!(c.registers.pc, 0xC000);
    assert!(c.delay >= 69905);
    assert_eq!(c.memory.pc, 0xC000);
    assert!(c.trace.is_empty());
}

#[test]
fn a_frame_with_the_lcd_on_raises_vblank() {
    let mut c = cpu_at(0xC000);
    c.memory.wb(0xC000, 0x18);
    c.memory.wb(0xC001, 0xFE);
    c.memory.wb(0xFF40, 0x91);
    assert!(c.step());
    assert_eq!(c.memory.interrupt_flags & 1, 1);
    assert!(c.memory.gpu.updated);
}

#[test]
fn an_interrupt_is_taken_at_the_start_of_a_frame() {
    let mut c = cpu_at(0xC000);
    c.memory.bios[0x40] = 0x18;
    c.memory.bios[0x41] = 0xFE;
    c.memory.wb(0xFFFF, 0x01);
    c.memory.wb(0xFF0F, 0x01);
    assert!(c.step());
    assert_eq!(c.registers.pc, 0x40);
    assert!(!c.ime);
    assert_eq!(c.memory.interrupt_flags & 1, 0);
    assert_eq!(c.registers.sp, 0xCFFE);
    assert_eq!(c.memory.rb(0xCFFF), 0xC0);
    assert_eq!(c.memory.rb(0xCFFE), 0x00);
}

#[test]
fn halt_is_ended_by_a_pending_interrupt() {
    let mut c = cpu_at(0xC000);
    c.ime = false;
    c.halted = true;
    c.memory.wb(0xC000, 0x18);
    c.memory.wb(0xC001, 0xFE);
    c.memory.wb(0xFFFF, 0x04);
    c.memory.wb(0xFF0F, 0x04);
    assert!(c.step());
    assert!(!c.halted);
    assert_eq!(c.registers.pc, 0xC000);
}

#[test]
fn halted_cpu_counts_cycles() {
    let mut c = cpu_at(0xC000);
    c.halted = true;
    assert!(c.step());
    assert!(c.halted);
    assert_eq!(c.registers.pc, 0xC000);
    assert_eq!(c.delay, 69905);
}

#[test]
fn an_undefined_opcode_stops_the_frame() {
    let mut c = cpu_at(0xC000);
    c.memory.wb(0xC000, 0xD3);
    assert!(!c.step());
    assert_eq!(c.registers.pc, 0xC000);
}

#[test]
fn a_write_to_a_missing_work_ram_bank_stops_the_frame() {
    let mut c = cpu_at(0xC000);
    c.memory.wb(0xFF70, 9);
    c.registers.set_hl(0xD000);
    c.memory.wb(0xC000, 0x77);
    assert!(!c.step());
    assert_eq!(c.registers.pc, 0xC000);
}

#[test]
fn boot_rom_is_unmapped_at_0x100() {
    let mut c = cpu_at(0x100);
    c.memory.rom[0x100] = 0x18;
    c.memory.rom[0x101] = 0xFE;
    assert!(c.step());
    assert!(!c.memory.in_bios);
}

#[test]
fn push_then_pop_on_a_high_ram_stack() {
    let mut c = cpu_at(0xC000);
    c.registers.sp = 0xFFFE;
    c.registers.set_bc(0x1234);
    assert_eq!(c.execute(0xC5, 0), 16);
    assert_eq!(c.memory.rb(0xFFFD), 0x12);
    assert_eq!(c.memory.rb(0xFFFC), 0x34);
    assert_eq!(c.execute(0xD1, 0), 12);
    assert_eq!(c.registers.get_de(), 0x1234);
    assert_eq!(c.registers.get_bc(), 0x1234);
    assert_eq!(c.registers.sp, 0xFFFE);
}

#[test]
fn call_then_ret_on_a_high_ram_stack() {
    let mut c = cpu_at(0x0200);
    c.registers.sp = 0xFFFE;
    c.registers.a = 0x5A;
    assert_eq!(c.execute(0xCD, 0x4321), 24);
    assert_eq!(c.registers.pc, 0x4321);
    assert_eq!(c.registers.sp, 0xFFFC);
    assert_eq!(c.execute(0xC9, 0), 16);
    assert_eq!(c.registers.pc, 0x0203);
    assert_eq!(c.registers.sp, 0xFFFE);
    assert_eq!(c.registers.a, 0x5A);
}

#[test]
fn rlc_then_rrc_restores_value_and_sets_carry_from_bit_7() {
    let mut c = cpu_at(0xC000);
    c.registers.b = 0x81;
    c.execute_cb(0x00, 0);
    c.execute_cb(0x08, 0);
    assert_eq!(c.registers.b, 0x81);
    assert_eq!(flags(&c), (false, false, false, true));
}

#[test]
fn rl_then_rr_restores_value_and_carry() {
    let mut c = cpu_at(0xC000);
    c.registers.c = 0x80;
    c.registers.set_carry(false);
    c.execute_cb(0x11, 0);
    assert_eq!(c.registers.c, 0x00);
    assert!(c.registers.get_carry());
    c.execute_cb(0x19, 0);
    assert_eq!(c.registers.c, 0x80);
    assert_eq!(flags(&c), (false, false, false, false));
}
