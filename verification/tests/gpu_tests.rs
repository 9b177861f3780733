use gbemu::gpu::GPU;

#[test]
fn new_gpu_is_blank_and_off() {
    let mut g = GPU::new();
    assert_eq!(g.line, 0);
    assert!(!g.updated);
    assert_eq!(g.interrupt, 0);
    assert_eq!(g.data.len(), 69120);
    assert_eq!(g.rb(0xFF40), 0x58);
    assert_eq!(g.rb(0xFF49), 1);
}

#[test]
fn vram_and_oam_read_back() {
    let mut g = GPU::new();
    g.wb(0x8000, 0x12);
    g.wb(0x9FFF, 0x34);
    g.wb(0xFE00, 0x56);
    g.wb(0xFE9F, 0x78);
    assert_eq!(g.rb(0x8000), 0x12);
    assert_eq!(g.rb(0x9FFF), 0x34);
    assert_eq!(g.rb(0xFE00), 0x56);
    assert_eq!(g.rb(0xFE9F), 0x78);
}

#[test]
fn vram_banks_are_separate() {
    let mut g = GPU::new();
    g.wb(0x8000, 1);
    g.wb(0xFF4F, 1);
    assert_eq!(g.rb(0xFF4F), 1);
    assert_eq!(g.rb(0x8000), 0);
    g.wb(0x8000, 2);
    g.wb(0xFF4F, 0);
    assert_eq!(g.rb(0x8000), 1);
}

#[test]
fn lcdc_reads_back() {
    let mut g = GPU::new();
    g.wb(0xFF40, 0x91);
    assert_eq!(g.rb(0xFF40), 0x91);
    g.wb(0xFF40, 0xFF);
    assert_eq!(g.rb(0xFF40), 0xFF);
}

#[test]
fn stat_reports_sources_coincidence_and_mode() {
    let mut g = GPU::new();
    g.wb(0xFF41, 0x78);
    assert_eq!(g.rb(0xFF41), 0x7C);
    g.wb(0xFF45, 5);
    assert_eq!(g.rb(0xFF41), 0x78);
    assert_eq!(g.rb(0xFF45), 5);
}

#[test]
fn ly_is_read_only() {
    let mut g = GPU::new();
    g.wb(0xFF44, 9);
    assert_eq!(g.rb(0xFF44), 0);
}

#[test]
fn scroll_window_and_palette_registers() {
    let mut g = GPU::new();
    for (a, v) in [(0xFF42u16, 1u8), (0xFF43, 2), (0xFF47, 0xE4), (0xFF48, 0x1B), (0xFF4A, 7), (0xFF4B, 8)] {
        g.wb(a, v);
        assert_eq!(g.rb(a), v);
    }
    assert_eq!(g.rb(0xFF46), 0);
}

#[test]
fn colour_palette_ports_with_auto_increment() {
    let mut g = GPU::new_cgb();
    g.wb(0xFF68, 0x80);
    g.wb(0xFF69, 0x1F);
    g.wb(0xFF69, 0x7C);
    assert_eq!(g.rb(0xFF68), 0x82);
    g.wb(0xFF68, 0x00);
    assert_eq!(g.rb(0xFF69), 0x1F);
    g.wb(0xFF68, 0x01);
    assert_eq!(g.rb(0xFF69), 0x7C);
}

#[test]
fn sprite_palette_port_without_increment() {
    let mut g = GPU::new();
    g.wb(0xFF6A, 0x03);
    g.wb(0xFF6B, 0xFF);
    assert_eq!(g.rb(0xFF6A), 0x03);
    assert_eq!(g.rb(0xFF6B), 0x7F);
}

#[test]
fn cycling_with_the_lcd_off_changes_nothing() {
    let mut g = GPU::new();
    g.do_cycle(10000);
    assert_eq!(g.line, 0);
    assert_eq!(g.interrupt, 0);
    assert!(!g.updated);
}

#[test]
fn a_line_takes_456_clocks() {
    let mut g = GPU::new();
    g.wb(0xFF40, 0x80);
    g.do_cycle(455);
    assert_eq!(g.rb(0xFF44), 0);
    assert_eq!(g.rb(0xFF41) & 3, 0);
    g.do_cycle(1);
    assert_eq!(g.rb(0xFF44), 1);
    assert_eq!(g.rb(0xFF41) & 3, 2);
}

#[test]
fn vblank_after_144_lines() {
    let mut g = GPU::new();
    g.wb(0xFF40, 0x80);
    g.do_cycle(456 * 144);
    assert_eq!(g.rb(0xFF44), 144);
    assert_eq!(g.rb(0xFF41) & 3, 1);
    assert_eq!(g.interrupt & 1, 1);
    assert!(g.updated);
}

#[test]
fn switching_the_lcd_off_blanks_the_screen() {
    let mut g = GPU::new();
    g.wb(0xFF40, 0x80);
    g.do_cycle(1000);
    g.wb(0xFF40, 0x00);
    assert_eq!(g.rb(0xFF44), 0);
    assert!(g.data.iter().all(|&b| b == 255));
    assert!(g.updated);
}

#[test]
fn hblank_allows_hdma() {
    let mut g = GPU::new();
    g.wb(0xFF40, 0x80);
    g.do_cycle(300);
    assert_eq!(g.rb(0xFF41) & 3, 0);
    assert!(g.may_hdma());
    assert_eq!(g.take_interrupt(), 0);
}

#[test]
fn stat_interrupt_on_hblank_when_enabled() {
    let mut g = GPU::new();
    g.wb(0xFF41, 0x08);
    g.wb(0xFF40, 0x80);
    g.do_cycle(300);
    assert_eq!(g.interrupt & 2, 2);
    assert_eq!(g.take_interrupt() & 2, 2);
    assert_eq!(g.interrupt, 0);
}

#[test]
fn background_line_drawn_with_palette() {
    let mut g = GPU::new();
    // Tile 0 row 0: colour 3 in every pixel; palette maps 3 to black.
    g.wb(0x8000, 0xFF);
    g.wb(0x8001, 0xFF);
    g.wb(0xFF47, 0xC0);
    g.wb(0xFF40, 0x91);
    g.do_cycle(300);
    assert_eq!(&g.data[0..3], &[0, 0, 0]);
    assert_eq!(&g.data[477..480], &[0, 0, 0]);
}

#[test]
fn colour_palette_round_trip() {
    let mut g = GPU::new();
    g.wb(0xFF68, 0x80 | 4);
    g.wb(0xFF69, 0xE7);
    g.wb(0xFF69, 0xB5);
    assert_eq!(g.rb(0xFF68), 0x80 | 6);
    g.wb(0xFF68, 4);
    assert_eq!(g.rb(0xFF69), 0xE7);
    g.wb(0xFF68, 5);
    assert_eq!(g.rb(0xFF69), 0xB5 & 0x7F);
}

#[test]
fn lcd_modes_follow_the_line_clock() {
    let mut g = GPU::new();
    g.wb(0xFF40, 0x80);
    g.do_cycle(40);
    assert_eq!(g.rb(0xFF41) & 3, 2);
    g.do_cycle(100);
    assert_eq!(g.rb(0xFF41) & 3, 3);
    assert!(!g.may_hdma());
    g.do_cycle(150);
    assert_eq!(g.rb(0xFF41) & 3, 0);
    assert!(g.may_hdma());
    g.do_cycle(456 * 144);
    assert_eq!(g.rb(0xFF44), 144);
    assert_eq!(g.rb(0xFF41) & 3, 1);
    assert_eq!(g.interrupt & 1, 1);
    assert!(g.updated);
}

