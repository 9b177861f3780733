use gbemu::memory::{GbMode, GbSpeed, Key, Memory, Timer, MBC};

#[test]
fn timer_registers_read_back() {
    let mut t = Timer::new();
    assert_eq!(t.rb(0xFF07), 3);
    t.wb(0xFF06, 0x42);
    assert_eq!(t.rb(0xFF06), 0x42);
    t.wb(0xFF07, 0x05);
    assert_eq!(t.rb(0xFF07), 0x05);
    t.wb(0xFF07, 0x0A);
    assert_eq!(t.rb(0xFF07), 0x02);
    t.wb(0xFF07, 0xFC);
    assert_eq!(t.rb(0xFF07), 0x04);
}

#[test]
fn divider_counts_every_256_clocks() {
    let mut t = Timer::new();
    assert_eq!(t.do_cycle(255), 0);
    assert_eq!(t.rb(0xFF04), 0);
    t.do_cycle(1);
    assert_eq!(t.rb(0xFF04), 1);
    t.do_cycle(256 * 300);
    assert_eq!(t.rb(0xFF04), (301 % 256) as u8);
    t.wb(0xFF04, 0x77);
    assert_eq!(t.rb(0xFF04), 0);
}

#[test]
fn counter_runs_only_when_enabled() {
    let mut t = Timer::new();
    t.wb(0xFF07, 0x01);
    t.do_cycle(64);
    assert_eq!(t.rb(0xFF05), 0);
    t.wb(0xFF07, 0x05);
    t.do_cycle(64);
    assert_eq!(t.rb(0xFF05), 4);
}

#[test]
fn counter_overflow_reloads_and_interrupts() {
    let mut t = Timer::new();
    t.wb(0xFF06, 0x10);
    t.wb(0xFF05, 0xFE);
    t.wb(0xFF07, 0x05);
    assert_eq!(t.do_cycle(16), 0);
    assert_eq!(t.rb(0xFF05), 0xFF);
    assert_eq!(t.do_cycle(16), 4);
    assert_eq!(t.rb(0xFF05), 0x10);
}

#[test]
fn overflow_stops_the_counter_for_that_call() {
    let mut t = Timer::new();
    t.wb(0xFF05, 0xFF);
    t.wb(0xFF07, 0x05);
    assert_eq!(t.do_cycle(160), 4);
    assert_eq!(t.rb(0xFF05), 0);
    assert_eq!(t.do_cycle(0), 0);
    assert_eq!(t.rb(0xFF05), 10);
}

#[test]
fn joypad_rows() {
    let mut k = Key::new();
    k.rows[0] = 0x0E;
    k.rows[1] = 0x07;
    assert_eq!(k.rb(), 0);
    k.wb(0x10);
    assert_eq!(k.rb(), 0x0E);
    k.wb(0x20);
    assert_eq!(k.rb(), 0x07);
    k.wb(0x30);
    assert_eq!(k.rb(), 0);
}

#[test]
fn new_memory() {
    let mut m = Memory::new();
    assert!(m.in_bios);
    assert_eq!(m.bios.len(), 0xFFFF);
    assert_eq!(m.rom.len(), 0x2FFFFF);
    assert!(m.eram.is_empty());
    assert_eq!(m.rom_name, "Err.sav");
    assert_eq!(m.gbmode, GbMode::Classic);
    assert_eq!(m.gbspeed, GbSpeed::Single);
    assert_eq!(m.rb(0xFF70), 1);
    assert_eq!(m.rb(0xFF55), 0x80);
    let mut c = Memory::new_cgb();
    assert_eq!(c.gbmode, GbMode::Color);
    assert_eq!(c.rb(0xFF55), 0xFF);
    let _ = MBC::new();
}

#[test]
fn work_ram_reads_back() {
    let mut m = Memory::new();
    m.wb(0xC000, 1);
    m.wb(0xDFFF, 2);
    m.wb(0xE000, 3);
    assert_eq!(m.rb(0xC000), 3);
    assert_eq!(m.rb(0xDFFF), 2);
    assert_eq!(m.rb(0xE000), 3);
    m.wb(0xF123, 4);
    assert_eq!(m.rb(0xD123), 4);
    assert_eq!(m.rb(0xFDFF), m.rb(0xDDFF));
}

#[test]
fn work_ram_write_leaves_other_bytes() {
    let mut m = Memory::new();
    m.wb(0xC010, 9);
    m.wb(0xC011, 8);
    assert_eq!(m.rb(0xC010), 9);
}

#[test]
fn work_ram_banks_are_switched_through_ff70() {
    let mut m = Memory::new();
    m.wb(0xFF70, 2);
    m.wb(0xD000, 0x11);
    m.wb(0xFF70, 1);
    m.wb(0xD000, 0x22);
    m.wb(0xFF70, 2);
    assert_eq!(m.rb(0xD000), 0x11);
    assert_eq!(m.rb(0xF000), 0x11);
    m.wb(0xFF70, 0);
    assert_eq!(m.rb(0xFF70), 1);
    assert_eq!(m.rb(0xD000), 0x22);
    m.wb(0xC000, 0x33);
    m.wb(0xFF70, 3);
    assert_eq!(m.rb(0xFF70), 3);
    assert_eq!(m.rb(0xD000), 0);
    assert_eq!(m.rb(0xC000), 0x33);
}

#[test]
fn work_ram_banks_past_the_end_are_refused() {
    let mut m = Memory::new();
    m.wb(0xFF70, 8);
    assert!(!m.can_read(0xD000));
    assert!(!m.can_write(0xD000, 1));
    assert!(m.can_write(0xC000, 1));
    assert!(m.can_read(0xE000));
}

#[test]
fn high_ram_ie_and_if() {
    let mut m = Memory::new();
    m.wb(0xFF80, 5);
    m.wb(0xFFFE, 6);
    m.wb(0xFFFF, 0x1F);
    m.wb(0xFF0F, 0x03);
    assert_eq!(m.rb(0xFF80), 5);
    assert_eq!(m.rb(0xFFFE), 6);
    assert_eq!(m.rb(0xFFFF), 0x1F);
    assert_eq!(m.rb(0xFF0F), 0x03);
    assert_eq!(m.ie, 0x1F);
    assert_eq!(m.interrupt_flags, 0x03);
}

#[test]
fn oam_through_the_map() {
    let mut m = Memory::new();
    m.wb(0xFE00, 0x42);
    assert_eq!(m.rb(0xFE00), 0x42);
    m.wb(0xFE9F, 0x99);
    assert_eq!(m.rb(0xFE9F), 0x99);
    assert_eq!(m.gpu.rb(0xFE9F), 0x99);
    m.wb(0xFEA0, 0x55);
    assert_eq!(m.rb(0xFEA0), 0);
}

#[test]
fn vram_through_the_map() {
    let mut m = Memory::new();
    m.wb(0x8123, 0xAB);
    assert_eq!(m.rb(0x8123), 0xAB);
}

#[test]
fn boot_rom_overlays_the_first_page() {
    let mut m = Memory::new();
    m.bios[0x10] = 0x31;
    m.rom[0x10] = 0x77;
    m.rom[0x100] = 0x55;
    assert_eq!(m.rb(0x10), 0x31);
    assert_eq!(m.rb(0x100), 0x55);
    m.in_bios = false;
    assert_eq!(m.rb(0x10), 0x77);
}

#[test]
fn joypad_through_the_map() {
    let mut m = Memory::new();
    m.keys.rows[0] = 0x0D;
    m.keys.rows[1] = 0x0B;
    m.wb(0xFF00, 0x10);
    assert_eq!(m.rb(0xFF00), 0x0D);
    m.wb(0xFF00, 0x20);
    assert_eq!(m.rb(0xFF00), 0x0B);
}

#[test]
fn timer_through_the_map() {
    let mut m = Memory::new();
    m.wb(0xFF06, 0x33);
    m.wb(0xFF07, 0xFF);
    m.wb(0xFF04, 0x12);
    assert_eq!(m.rb(0xFF06), 0x33);
    assert_eq!(m.rb(0xFF07), 0x07);
    assert_eq!(m.rb(0xFF04), 0);
}

#[test]
fn unhandled_io_reads_zero() {
    let mut m = Memory::new();
    m.wb(0xFF10, 0x80);
    assert_eq!(m.rb(0xFF10), 0);
    assert_eq!(m.rb(0xFF01), 0);
    assert_eq!(m.rb(0xFF7F), 0);
}

#[test]
fn speed_switch_on_request() {
    let mut m = Memory::new_cgb();
    assert_eq!(m.rb(0xFF4D), 0);
    m.wb(0xFF4D, 0x01);
    assert_eq!(m.rb(0xFF4D), 0x01);
    m.switch_speed();
    assert_eq!(m.gbspeed, GbSpeed::Double);
    assert_eq!(m.rb(0xFF4D), 0x80);
    m.switch_speed();
    assert_eq!(m.gbspeed, GbSpeed::Double);
    m.wb(0xFF4D, 0x01);
    m.switch_speed();
    assert_eq!(m.gbspeed, GbSpeed::Single);
}

#[test]
fn oam_dma_copies_160_bytes() {
    let mut m = Memory::new();
    for i in 0..0xA0u16 {
        m.wb(0xC000 + i, i as u8 ^ 0x5A);
    }
    m.wb(0xFF46, 0xC0);
    for i in 0..0xA0u16 {
        assert_eq!(m.gpu.rb(0xFE00 + i), i as u8 ^ 0x5A);
    }
}

#[test]
fn general_dma_copies_rows_to_vram() {
    let mut m = Memory::new_cgb();
    for i in 0..0x20u16 {
        m.wb(0xC000 + i, (i + 1) as u8);
    }
    m.wb(0xFF51, 0xC0);
    m.wb(0xFF52, 0x0F);
    m.wb(0xFF53, 0xE1);
    m.wb(0xFF54, 0x0F);
    assert_eq!(m.rb(0xFF52), 0x00);
    assert_eq!(m.rb(0xFF53), 0x01);
    m.wb(0xFF55, 0x01);
    assert_eq!(m.rb(0xFF55), 0x01);
    assert_eq!(m.perform_vramdma(), 16);
    for i in 0..0x20u16 {
        assert_eq!(m.rb(0x8100 + i), (i + 1) as u8);
    }
    assert_eq!(m.rb(0xFF55), 0xFF);
    assert_eq!(m.perform_vramdma(), 0);
}

#[test]
fn hblank_dma_waits_for_hblank() {
    let mut m = Memory::new_cgb();
    m.wb(0xC000, 0xEE);
    m.wb(0xFF51, 0xC0);
    m.wb(0xFF55, 0x80);
    assert_eq!(m.rb(0xFF55), 0x00);
    assert_eq!(m.perform_vramdma(), 0);
    m.wb(0xFF40, 0x80);
    m.gpu.do_cycle(300);
    assert_eq!(m.perform_vramdma(), 8);
    assert_eq!(m.rb(0x8000), 0xEE);
    assert_eq!(m.rb(0xFF55), 0xFF);
}

#[test]
fn hblank_dma_can_be_stopped() {
    let mut m = Memory::new_cgb();
    m.wb(0xFF51, 0xC0);
    m.wb(0xFF55, 0x83);
    m.wb(0xFF55, 0x00);
    assert_eq!(m.rb(0xFF55), 0x83);
}

#[test]
fn mbc1_rom_banks() {
    let mut m = Memory::new();
    m.carttype = 1;
    m.rom[2 * 0x4000 + 5] = 0xAB;
    m.rom[0x4000 + 5] = 0xCD;
    assert_eq!(m.rb(0x4005), 0xCD);
    m.wb(0x2000, 2);
    assert_eq!(m.rb(0x4005), 0xAB);
    m.wb(0x2000, 0);
    assert_eq!(m.rb(0x4005), 0xCD);
    m.wb(0x4000, 1);
    m.wb(0x2000, 2);
    m.rom[0x22 * 0x4000] = 0x11;
    assert_eq!(m.rb(0x4000), 0x11);
}

#[test]
fn mbc3_rom_bank_select() {
    let mut m = Memory::new();
    m.carttype = 0x13;
    m.rom[0x05 * 0x4000 + 0x123] = 0x5A;
    m.rom[0x4000 + 0x123] = 0xA5;
    m.wb(0x3FFF, 0x85);
    assert_eq!(m.rb(0x4123), 0x5A);
    m.wb(0x2000, 0x80);
    assert_eq!(m.rb(0x4123), 0xA5);
}

#[test]
fn mbc5_rom_bank_high_bit() {
    let mut m = Memory::new();
    m.carttype = 0x19;
    m.rom.resize(0x200 * 0x4000, 0);
    m.rom[0x1FF * 0x4000] = 0x3C;
    m.wb(0x2000, 0xFF);
    m.wb(0x3000, 0x01);
    assert_eq!(m.rb(0x4000), 0x3C);
}

#[test]
fn external_ram_enable_and_save_copy() {
    let mut m = Memory::new();
    m.carttype = 3;
    m.eram = vec![7; 0x8000];
    assert_eq!(m.rb(0xA000), 0);
    m.wb(0x0000, 0x0A);
    m.wb(0xA000, 5);
    assert_eq!(m.rb(0xA000), 5);
    m.wb(0x4000, 1);
    m.wb(0x6000, 1);
    m.wb(0x4000, 1);
    m.wb(0xA000, 9);
    assert_eq!(m.eram[0x2000], 9);
    assert_eq!(m.sram_snapshot, None);
    m.wb(0x0000, 0x00);
    assert!(m.saved);
    let snap = m.sram_snapshot.take().unwrap();
    assert_eq!(snap[0], 5);
    assert_eq!(snap[0x2000], 9);
    assert_eq!(snap[1], 7);
    assert_eq!(m.rb(0xA000), 0);
    m.wb(0x0000, 0x0A);
    m.wb(0x0000, 0x00);
    assert_eq!(m.sram_snapshot, None);
}

#[test]
fn mbc3_clock_latch() {
    let mut m = Memory::new();
    m.carttype = 0x10;
    m.rtc_now = Some(90061);
    m.wb(0x0000, 0x0A);
    m.wb(0x4000, 0x08);
    m.wb(0x6000, 0);
    m.wb(0x6000, 1);
    assert_eq!(m.rb(0xA000), 1);
    m.wb(0x4000, 0x09);
    assert_eq!(m.rb(0xA000), 1);
    m.wb(0x4000, 0x0A);
    assert_eq!(m.rb(0xA000), 1);
    m.wb(0x4000, 0x0B);
    assert_eq!(m.rb(0xA000), 1);
    m.wb(0x4000, 0x0C);
    assert_eq!(m.rb(0xA000), 0);
}

#[test]
fn mbc3_clock_register_write_rebases() {
    let mut m = Memory::new();
    m.carttype = 0x10;
    m.rtc_now = Some(90061);
    m.wb(0x0000, 0x0A);
    m.wb(0x6000, 0);
    m.wb(0x6000, 1);
    m.wb(0x4000, 0x08);
    m.wb(0xA000, 0);
    assert_eq!(m.rb(0xA000), 0);
    m.wb(0x6000, 0);
    m.wb(0x6000, 1);
    assert_eq!(m.rb(0xA000), 0);
    m.rtc_now = Some(90071);
    m.wb(0x6000, 0);
    m.wb(0x6000, 1);
    assert_eq!(m.rb(0xA000), 10);
}

#[test]
fn mbc3_latch_needs_the_lock_released() {
    let mut m = Memory::new();
    m.carttype = 0x10;
    m.rtc_now = Some(5);
    m.wb(0x0000, 0x0A);
    m.wb(0x4000, 0x08);
    m.wb(0x6000, 1);
    assert_eq!(m.rb(0xA000), 5);
    m.rtc_now = Some(7);
    m.wb(0x6000, 1);
    assert_eq!(m.rb(0xA000), 5);
    m.wb(0x6000, 0);
    m.wb(0x6000, 1);
    assert_eq!(m.rb(0xA000), 7);
}

#[test]
fn load_sram_fills_the_start_of_external_ram() {
    let mut m = Memory::new();
    m.eram = vec![0; 8];
    m.load_sram(&vec![1, 2, 3]);
    assert_eq!(m.eram, vec![1, 2, 3, 0, 0, 0, 0, 0]);
}

#[test]
fn save_sram_takes_a_copy() {
    let mut m = Memory::new();
    m.eram = vec![4, 5];
    m.save_sram();
    assert_eq!(m.sram_snapshot, Some(vec![4, 5]));
}

#[test]
fn initial_register_values() {
    let mut m = Memory::new();
    m.set_initial();
    assert_eq!(m.rb(0xFF40), 0x91);
    assert_eq!(m.rb(0xFF47), 0xFC);
    assert_eq!(m.rb(0xFF48), 0xFF);
    assert_eq!(m.rb(0xFF49), 0xFF);
    assert_eq!(m.rb(0xFF07), 0x00);
}

#[test]
fn colour_flag_in_the_header() {
    let mut m = Memory::new();
    m.rom[0x143] = 0x80;
    m.determine_mode();
    assert_eq!(m.gbmode, GbMode::Color);
    m.rom[0x143] = 0x00;
    m.determine_mode();
    assert_eq!(m.gbmode, GbMode::ColorAsClassic);
}

#[test]
fn cartridge_is_appended_to_the_rom_image() {
    let mut m = Memory::new();
    let boot = vec![0x31, 0xFE, 0xFF];
    let mut cart = vec![0u8; 0x150];
    cart[0x147] = 0x13;
    m.load_rom(&boot, &cart);
    assert_eq!(m.bios[0], 0x31);
    assert_eq!(m.bios[2], 0xFF);
    assert_eq!(m.rom.len(), 0x2FFFFF + 0x150);
    assert_eq!(m.rom[0x2FFFFF + 0x147], 0x13);
    assert_eq!(m.carttype, 0);
}

#[test]
fn peripherals_advance_and_latch_interrupts() {
    let mut m = Memory::new();
    m.wb(0xFF05, 0xFF);
    m.wb(0xFF07, 0x05);
    m.cycle_gpu(4);
    assert!(m.can_cycle_timer(4));
    m.cycle_timer(4);
    assert_eq!(m.interrupt_flags & 0x04, 0x04);
    assert!(m.can_read(0xC000));
    assert!(!m.can_read(0xFF4C));
    assert!(m.can_write(0xF000, 0));
    assert!(m.can_write(0xC000, 0));
}

#[test]
fn timer_tima_reads_back_and_writes_are_independent() {
    let mut t = Timer::new();
    t.wb(0xFF05, 0x77);
    assert_eq!(t.rb(0xFF05), 0x77);
    t.wb(0xFF06, 0x11);
    assert_eq!(t.rb(0xFF05), 0x77);
    assert_eq!(t.rb(0xFF06), 0x11);
    t.wb(0xFF07, 0x04);
    assert_eq!(t.rb(0xFF05), 0x77);
    assert_eq!(t.rb(0xFF07), 0x04);
}

#[test]
fn joypad_reads_zero_with_no_or_both_rows() {
    let mut m = Memory::new();
    m.wb(0xFF00, 0x00);
    assert_eq!(m.rb(0xFF00), 0);
    m.wb(0xFF00, 0x30);
    assert_eq!(m.rb(0xFF00), 0);
    m.wb(0xFF00, 0x10);
    assert_eq!(m.rb(0xFF00), 0x0F);
}

#[test]
fn writes_leave_other_plain_bytes() {
    let mut m = Memory::new();
    m.wb(0x8000, 1);
    m.wb(0x8001, 2);
    m.wb(0xFF80, 3);
    m.wb(0xFF81, 4);
    m.wb(0xFFFF, 5);
    assert_eq!(m.rb(0x8000), 1);
    assert_eq!(m.rb(0xFF80), 3);
    assert_eq!(m.rb(0xFF81), 4);
    assert_eq!(m.rb(0xFFFE), 0);
}
