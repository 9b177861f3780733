use gbemu::registers::Registers;

#[test]
fn bc_pair_round_trip() {
    let mut r = Registers::new();
    r.set_bc(0x1234);
    assert_eq!(r.b, 0x12);
    assert_eq!(r.c, 0x34);
    assert_eq!(r.get_bc(), 0x1234);
}

#[test]
fn de_and_hl_pairs() {
    let mut r = Registers::new();
    r.set_de(0xBEEF);
    r.set_hl(0x00FF);
    assert_eq!((r.d, r.e), (0xBE, 0xEF));
    assert_eq!((r.h, r.l), (0x00, 0xFF));
    assert_eq!(r.get_de(), 0xBEEF);
    assert_eq!(r.get_hl(), 0x00FF);
}

#[test]
fn new_registers_start_at_0x100() {
    let r = Registers::new();
    assert_eq!(r.pc, 0x100);
    assert_eq!(r.sp, 0);
    assert_eq!(r.a, 0);
    assert!(!r.get_zero() && !r.get_sub() && !r.get_half() && !r.get_carry());
}

#[test]
fn af_keeps_only_the_high_flag_nibble() {
    let mut r = Registers::new();
    r.set_af(0x12FF);
    assert_eq!(r.a, 0x12);
    assert_eq!(r.get_f(), 0xF0);
    assert_eq!(r.get_af(), 0x12F0);
}

#[test]
fn flag_bits_of_f() {
    let mut r = Registers::new();
    r.set_f(0xA0);
    assert!(r.get_zero());
    assert!(!r.get_sub());
    assert!(r.get_half());
    assert!(!r.get_carry());
    r.set_carry(true);
    r.set_zero(false);
    r.set_sub(true);
    assert_eq!(r.get_f(), 0x70);
}

#[test]
fn flags_written_read_back_as_high_nibble() {
    for v in [0x00u8, 0x0F, 0x10, 0x5A, 0xFF] {
        let mut r = Registers::new();
        r.set_f(v);
        assert_eq!(r.get_f(), v & 0xF0);
    }
}

#[test]
fn pair_written_reads_back() {
    for v in [0x0000u16, 0x0001, 0x7FFF, 0x8000, 0xFFFF] {
        let mut r = Registers::new();
        r.set_hl(v);
        assert_eq!(r.get_hl(), v);
    }
}

#[test]
fn rom_starts_empty() {
    let r = gbemu::read_rom::ROM::new(String::from("./roms/boot.bin"));
    assert_eq!(r.path, "./roms/boot.bin");
    assert!(r.content.is_empty());
}
