//! The Sharp LR35902 core: the ALU, instruction decoding and execution,
//! interrupt dispatch, and the frame loop that drives the GPU and the timer.
use vstd::prelude::*;
use crate::memory::{
    Memory,
    MemoryModel,
    lemma_write_ok_frame,
    lemma_interrupt_registers,
    lemma_if_write_wf,
    lemma_wf_sizes,
    law_plain_write_read,
    law_plain_write_other,
    law_neighbours_distinct,
};
use vstd::arithmetic::div_mod::lemma_fundamental_div_mod_converse;
use crate::registers::{Flags, Registers, flags_byte, flags_from_byte, hi_byte, lo_byte};

verus! {

/// Registers that instructions name as operands or destinations.
#[derive(Clone, Copy, PartialEq, Eq, Structural, Debug)]
pub enum Target {
    A,
    F,
    B,
    C,
    D,
    E,
    H,
    L,
    AF,
    BC,
    DE,
    HL,
    SP,
}

/// The 8-bit registers A, B, C, D, E, H and L.
pub open spec fn is8(t: Target) -> bool {
    t is A || t is B || t is C || t is D || t is E || t is H || t is L
}

pub open spec fn get8(r: Registers, t: Target) -> u8 {
    match t {
        Target::A => r.a,
        Target::B => r.b,
        Target::C => r.c,
        Target::D => r.d,
        Target::E => r.e,
        Target::H => r.h,
        Target::L => r.l,
        _ => 0,
    }
}

pub open spec fn set8(r: Registers, t: Target, v: u8) -> Registers {
    match t {
        Target::A => Registers { a: v, ..r },
        Target::B => Registers { b: v, ..r },
        Target::C => Registers { c: v, ..r },
        Target::D => Registers { d: v, ..r },
        Target::E => Registers { e: v, ..r },
        Target::H => Registers { h: v, ..r },
        Target::L => Registers { l: v, ..r },
        _ => r,
    }
}

/// The register pairs BC, DE and HL.
pub open spec fn is_pair(t: Target) -> bool {
    t is BC || t is DE || t is HL
}

pub open spec fn get16(r: Registers, t: Target) -> u16 {
    match t {
        Target::BC => r.spec_bc(),
        Target::DE => r.spec_de(),
        Target::HL => r.spec_hl(),
        Target::SP => r.sp,
        Target::AF => r.spec_af(),
        _ => 0,
    }
}

pub open spec fn set16(r: Registers, t: Target, v: u16) -> Registers {
    match t {
        Target::BC => Registers { b: hi_byte(v), c: lo_byte(v), ..r },
        Target::DE => Registers { d: hi_byte(v), e: lo_byte(v), ..r },
        Target::HL => Registers { h: hi_byte(v), l: lo_byte(v), ..r },
        Target::SP => Registers { sp: v, ..r },
        Target::AF => Registers { a: hi_byte(v), f: flags_from_byte(lo_byte(v)), ..r },
        _ => r,
    }
}

pub open spec fn carry_bit(f: Flags) -> int {
    if f.carry {
        1
    } else {
        0
    }
}

/// A 16-bit word read as a two's complement number.
pub open spec fn signed16(x: int) -> int {
    if x >= 32768 {
        x - 65536
    } else {
        x
    }
}

/// A byte read as a two's complement number.
pub open spec fn signed8(x: int) -> int {
    if x >= 128 {
        x - 256
    } else {
        x
    }
}

/// ADD: to an 8-bit register the low byte of `value`; to SP or a register
/// pair the low 16 bits. Zero, half-carry (from bit 3, or bit 11 for pairs)
/// and carry as the sum gives them; adding to a pair keeps Zero.
pub open spec fn add_spec(r: Registers, t: Target, value: usize) -> Registers {
    if is8(t) {
        let x = get8(r, t) as int;
        let y = value as int % 256;
        let s = x + y;
        set8(
            Registers {
                f: Flags { zero: s % 256 == 0, sub: false, half: x % 16 + y % 16 > 15, carry: s > 255 },
                ..r
            },
            t,
            (s % 256) as u8,
        )
    } else if t is SP {
        let y = value as int % 65536;
        Registers {
            sp: ((r.sp + y) % 65536) as u16,
            f: Flags {
                zero: false,
                sub: false,
                half: r.sp % 16 + y % 16 > 15,
                carry: r.sp % 256 + y % 256 > 255,
            },
            ..r
        }
    } else if is_pair(t) {
        let x = get16(r, t) as int;
        let y = value as int % 65536;
        set16(
            Registers {
                f: Flags { sub: false, half: x % 4096 + y % 4096 > 4095, carry: x + y > 65535, ..r.f },
                ..r
            },
            t,
            ((x + y) % 65536) as u16,
        )
    } else {
        r
    }
}

/// SUB on an 8-bit register: the difference wraps; carry is a borrow.
pub open spec fn sub_spec(r: Registers, t: Target, value: usize) -> Registers {
    if is8(t) {
        let x = get8(r, t) as int;
        let y = value as int % 256;
        set8(
            Registers {
                f: Flags { zero: x == y, sub: true, half: x % 16 < y % 16, carry: x < y },
                ..r
            },
            t,
            ((x - y + 256) % 256) as u8,
        )
    } else {
        r
    }
}

/// ADC computes its carry over 16 bits: it has to fit.
pub open spec fn adc_ok(r: Registers, t: Target, value: usize) -> bool {
    t is A ==> r.a + value as int % 65536 + carry_bit(r.f) <= 0xFFFF
}

/// ADC to A: the low byte of `value` and the carry flag are added.
pub open spec fn adc_spec(r: Registers, t: Target, value: usize) -> Registers {
    if t is A {
        let c = carry_bit(r.f);
        let y = value as int % 256;
        let s = r.a + y + c;
        Registers {
            a: (s % 256) as u8,
            f: Flags {
                zero: s % 256 == 0,
                sub: false,
                half: r.a % 16 + (y % 16 + c) > 15,
                carry: r.a + value as int % 65536 + c > 0xFF,
            },
            ..r
        }
    } else {
        r
    }
}

/// SBC compares A with `value` read as a signed 16-bit number plus the
/// carry: that sum has to fit.
pub open spec fn sbc_ok(r: Registers, t: Target, value: usize) -> bool {
    t is A ==> signed16(value as int % 65536) + carry_bit(r.f) <= 32767
}

/// SBC from A: the low byte of `value` and the carry flag are subtracted.
pub open spec fn sbc_spec(r: Registers, t: Target, value: usize) -> Registers {
    if t is A {
        let c = carry_bit(r.f);
        let y = value as int % 256;
        let d = (r.a - y - c + 512) % 256;
        Registers {
            a: d as u8,
            f: Flags {
                zero: d == 0,
                sub: true,
                half: r.a % 16 < y % 16 + c,
                carry: r.a < signed16(value as int % 65536) + c,
            },
            ..r
        }
    } else {
        r
    }
}

pub open spec fn and_spec(r: Registers, v: u8) -> Registers {
    let n = r.a & v;
    Registers { a: n, f: Flags { zero: n == 0, sub: false, half: true, carry: false }, ..r }
}

pub open spec fn or_spec(r: Registers, v: u8) -> Registers {
    let n = r.a | v;
    Registers { a: n, f: Flags { zero: n == 0, sub: false, half: false, carry: false }, ..r }
}

pub open spec fn xor_spec(r: Registers, v: u8) -> Registers {
    let n = r.a ^ v;
    Registers { a: n, f: Flags { zero: n == 0, sub: false, half: false, carry: false }, ..r }
}

/// CP: the flags of A minus the low byte of `value`, A kept.
pub open spec fn cp_spec(r: Registers, t: Target, value: usize) -> Registers {
    if t is A {
        Registers { f: sub_spec(r, Target::A, value).f, ..r }
    } else {
        r
    }
}

/// INC: 8-bit registers wrap and set Zero, Subtract and half-carry (Carry
/// kept); 16-bit ones wrap with the flags kept.
pub open spec fn inc_spec(r: Registers, t: Target) -> Registers {
    if is8(t) {
        let x = get8(r, t) as int;
        set8(
            Registers {
                f: Flags { zero: (x + 1) % 256 == 0, sub: false, half: x % 16 == 15, ..r.f },
                ..r
            },
            t,
            ((x + 1) % 256) as u8,
        )
    } else if is_pair(t) || t is SP {
        set16(r, t, ((get16(r, t) + 1) % 65536) as u16)
    } else {
        r
    }
}

/// DEC: as INC, downwards; half-carry is a borrow from bit 4.
pub open spec fn dec_spec(r: Registers, t: Target) -> Registers {
    if is8(t) {
        let x = get8(r, t) as int;
        set8(
            Registers { f: Flags { zero: x == 1, sub: true, half: x % 16 == 0, ..r.f }, ..r },
            t,
            ((x + 255) % 256) as u8,
        )
    } else if is_pair(t) || t is SP {
        set16(r, t, ((get16(r, t) + 65535) % 65536) as u16)
    } else {
        r
    }
}

pub open spec fn ccf_spec(r: Registers) -> Registers {
    Registers { f: Flags { carry: !r.f.carry, sub: false, half: false, ..r.f }, ..r }
}

pub open spec fn scf_spec(r: Registers) -> Registers {
    Registers { f: Flags { carry: true, sub: false, half: false, ..r.f }, ..r }
}

pub open spec fn cpl_spec(r: Registers) -> Registers {
    Registers { a: (255 - r.a) as u8, f: Flags { half: true, sub: true, ..r.f }, ..r }
}

/// LD: an 8-bit register takes the low byte, SP or a pair the low 16 bits;
/// F alone is not loaded.
pub open spec fn ld_spec(r: Registers, t: Target, value: usize) -> Registers {
    if is8(t) {
        set8(r, t, (value % 256) as u8)
    } else {
        set16(r, t, (value % 65536) as u16)
    }
}

/// The rotates and shifts of the CB table on a byte, by operation number:
/// 0 RLC, 1 RRC, 2 RL, 3 RR, 4 SLA, 5 SRA, 6 SWAP, 7 SRL. Each gives the new
/// byte and flags: Zero from the result, Subtract and half-carry clear, and
/// Carry the bit shifted out (SWAP clears it).
pub open spec fn cb_rot(k: int, x: u8, f: Flags) -> (u8, Flags) {
    let v = x as int;
    let low = (v % 128) * 2;
    let y: int = if k == 0 {
        low + v / 128
    } else if k == 1 {
        v / 2 + (v % 2) * 128
    } else if k == 2 {
        low + carry_bit(f)
    } else if k == 3 {
        v / 2 + carry_bit(f) * 128
    } else if k == 4 {
        low
    } else if k == 5 {
        v / 2 + (v / 128) * 128
    } else if k == 6 {
        v / 16 + (v % 16) * 16
    } else {
        v / 2
    };
    let carry = if k == 0 || k == 2 || k == 4 {
        v >= 128
    } else if k == 6 {
        false
    } else {
        v % 2 == 1
    };
    (y as u8, Flags { zero: y == 0, sub: false, half: false, carry })
}

/// RLA and RRA: RL and RR on A, with Zero clear.
pub open spec fn rla_spec(r: Registers) -> Registers {
    let (y, f) = cb_rot(2, r.a, r.f);
    Registers { a: y, f: Flags { zero: false, ..f }, ..r }
}

pub open spec fn rra_spec(r: Registers) -> Registers {
    let (y, f) = cb_rot(3, r.a, r.f);
    Registers { a: y, f: Flags { zero: false, ..f }, ..r }
}

/// RLCA and RRCA: RLC and RRC on A, with Zero clear.
pub open spec fn rlca_spec(r: Registers) -> Registers {
    let (y, f) = cb_rot(0, r.a, r.f);
    Registers { a: y, f: Flags { zero: false, ..f }, ..r }
}

pub open spec fn rrca_spec(r: Registers) -> Registers {
    let (y, f) = cb_rot(1, r.a, r.f);
    Registers { a: y, f: Flags { zero: false, ..f }, ..r }
}

/// DAA: corrects A to binary-coded decimal after an addition or a
/// subtraction, by 0x06 and/or 0x60 as the flags and the digits call for.
pub open spec fn daa_spec(r: Registers) -> Registers {
    let a = r.a as int;
    let six = r.f.half || (!r.f.sub && a % 16 > 9);
    let sixty = r.f.carry || (!r.f.sub && a > 0x99);
    let adj = (if sixty {
        0x60int
    } else {
        0
    }) + (if six {
        6int
    } else {
        0
    });
    let n = if !r.f.sub {
        (a + adj) % 256
    } else {
        (a - adj + 256) % 256
    };
    Registers { a: n as u8, f: Flags { zero: n == 0, half: false, carry: sixty, ..r.f }, ..r }
}

pub struct CPU {
    pub memory: Memory,
    pub registers: Registers,
    pub ime: bool,
    pub delay: u32,
    pub pause: bool,
    pub halted: bool,
    pub debug: bool,
    pub ime_delay: bool,
    pub trace: Vec<String>,
}

/// The abstract state of the machine.
pub ghost struct CpuModel {
    pub mem: MemoryModel,
    pub regs: Registers,
    pub ime: bool,
    pub delay: u32,
    pub pause: bool,
    pub halted: bool,
    pub debug: bool,
    pub ime_delay: bool,
    pub trace: Seq<String>,
}

impl View for CPU {
    type V = CpuModel;

    open spec fn view(&self) -> CpuModel {
        CpuModel {
            mem: self.memory@,
            regs: self.registers,
            ime: self.ime,
            delay: self.delay,
            pause: self.pause,
            halted: self.halted,
            debug: self.debug,
            ime_delay: self.ime_delay,
            trace: self.trace@,
        }
    }
}

impl CpuModel {
    pub open spec fn wf(self) -> bool {
        self.mem.wf()
    }

    pub open spec fn with_regs(self, r: Registers) -> CpuModel {
        CpuModel { regs: r, ..self }
    }

    pub open spec fn hl(self) -> u16 {
        self.regs.spec_hl()
    }

    /// Operands of the CB table: an 8-bit register, or the byte at HL.
    pub open spec fn cb_target(t: Target) -> bool {
        is8(t) || t is HL
    }

    pub open spec fn operand_ok(self, t: Target) -> bool {
        t is HL ==> self.mem.read_ok(self.hl())
    }

    pub open spec fn operand(self, t: Target) -> u8 {
        if t is HL {
            self.mem.read(self.hl())
        } else {
            get8(self.regs, t)
        }
    }

    pub open spec fn store_ok(self, t: Target, y: u8) -> bool {
        t is HL ==> self.mem.write_ok(self.hl(), y)
    }

    pub open spec fn store(self, t: Target, y: u8) -> CpuModel {
        if t is HL {
            CpuModel { mem: self.mem.write(self.hl(), y), ..self }
        } else {
            self.with_regs(set8(self.regs, t, y))
        }
    }

    pub open spec fn rotate_ok(self, k: int, t: Target) -> bool {
        CpuModel::cb_target(t) ==> self.operand_ok(t) && self.store_ok(
            t,
            cb_rot(k, self.operand(t), self.regs.f).0,
        )
    }

    /// A CB rotate or shift (operation `k`, as `cb_rot`) applied to `t`;
    /// other targets are left alone.
    pub open spec fn rotate(self, k: int, t: Target) -> CpuModel {
        if CpuModel::cb_target(t) {
            let (y, f) = cb_rot(k, self.operand(t), self.regs.f);
            self.with_regs(Registers { f, ..self.regs }).store(t, y)
        } else {
            self
        }
    }

    /// BIT: Zero set when bit `n` of `t` is clear; half-carry set, Subtract
    /// clear, Carry kept.
    pub open spec fn bit_test(self, t: Target, n: u8) -> CpuModel {
        if CpuModel::cb_target(t) {
            let z = self.operand(t) & (1u8 << n) == 0;
            self.with_regs(
                Registers { f: Flags { zero: z, half: true, sub: false, ..self.regs.f }, ..self.regs },
            )
        } else {
            self
        }
    }

    pub open spec fn bit_ok(self, t: Target) -> bool {
        CpuModel::cb_target(t) ==> self.operand_ok(t)
    }

    /// RES: bit `n` of `t` cleared.
    pub open spec fn bit_reset(self, t: Target, n: u8) -> CpuModel {
        if CpuModel::cb_target(t) {
            self.store(t, self.operand(t) & !(1u8 << n))
        } else {
            self
        }
    }

    pub open spec fn reset_ok(self, t: Target, n: u8) -> bool {
        CpuModel::cb_target(t) ==> self.operand_ok(t) && self.store_ok(
            t,
            self.operand(t) & !(1u8 << n),
        )
    }

    /// SET: bit `n` of `t` set.
    pub open spec fn bit_set(self, t: Target, n: u8) -> CpuModel {
        if CpuModel::cb_target(t) {
            self.store(t, self.operand(t) | (1u8 << n))
        } else {
            self
        }
    }

    pub open spec fn set_ok(self, t: Target, n: u8) -> bool {
        CpuModel::cb_target(t) ==> self.operand_ok(t) && self.store_ok(
            t,
            self.operand(t) | (1u8 << n),
        )
    }
}

fn read8(r: &Registers, t: Target) -> (v: u8)
    requires
        is8(t),
    ensures
        v == get8(*r, t),
{
    match t {
        Target::A => r.a,
        Target::B => r.b,
        Target::C => r.c,
        Target::D => r.d,
        Target::E => r.e,
        Target::H => r.h,
        _ => r.l,
    }
}

fn write8(r: &mut Registers, t: Target, v: u8)
    requires
        is8(t),
    ensures
        *final(r) == set8(*old(r), t, v),
{
    match t {
        Target::A => r.a = v,
        Target::B => r.b = v,
        Target::C => r.c = v,
        Target::D => r.d = v,
        Target::E => r.e = v,
        Target::H => r.h = v,
        _ => r.l = v,
    }
}

fn read16(r: &Registers, t: Target) -> (v: u16)
    requires
        is_pair(t) || t is SP,
    ensures
        v == get16(*r, t),
{
    match t {
        Target::BC => r.get_bc(),
        Target::DE => r.get_de(),
        Target::HL => r.get_hl(),
        _ => r.sp,
    }
}

fn write16(r: &mut Registers, t: Target, v: u16)
    requires
        is_pair(t) || t is SP || t is AF,
    ensures
        *final(r) == set16(*old(r), t, v),
{
    match t {
        Target::BC => r.set_bc(v),
        Target::DE => r.set_de(v),
        Target::HL => r.set_hl(v),
        Target::AF => r.set_af(v),
        _ => r.sp = v,
    }
}

/// Whether `t` is an operand of the CB table.
fn is_cb_target(t: Target) -> (b: bool)
    ensures
        b == CpuModel::cb_target(t),
{
    match t {
        Target::A | Target::B | Target::C | Target::D | Target::E | Target::H | Target::L
        | Target::HL => true,
        _ => false,
    }
}

//ALU functions
impl CPU {
    fn add(&mut self, target: Target, value: usize)
        ensures
            final(self)@ == old(self)@.with_regs(add_spec(old(self).registers, target, value)),
    {
        match target {
            Target::SP => {
                let y = (value % 65536) as u16;
                let sp = self.registers.sp;
                let s = sp as u32 + y as u32;
                self.registers.f = Flags {
                    zero: false,
                    sub: false,
                    half: sp % 16 + y % 16 > 15,
                    carry: sp % 256 + y % 256 > 255,
                };
                self.registers.sp = (s % 65536) as u16;
            },
            Target::HL | Target::DE | Target::BC => {
                let x = read16(&self.registers, target);
                let y = (value % 65536) as u16;
                let s = x as u32 + y as u32;
                self.registers.f = Flags {
                    zero: self.registers.f.zero,
                    sub: false,
                    half: x % 4096 + y % 4096 > 4095,
                    carry: s > 65535,
                };
                write16(&mut self.registers, target, (s % 65536) as u16);
            },
            Target::AF | Target::F => {},
            _ => {
                let x = read8(&self.registers, target);
                let y = (value % 256) as u8;
                let s = x as u16 + y as u16;
                self.registers.f = Flags {
                    zero: s % 256 == 0,
                    sub: false,
                    half: x % 16 + y % 16 > 15,
                    carry: s > 255,
                };
                write8(&mut self.registers, target, (s % 256) as u8);
            },
        }
    }

    fn sub(&mut self, target: Target, value: usize)
        ensures
            final(self)@ == old(self)@.with_regs(sub_spec(old(self).registers, target, value)),
    {
        match target {
            Target::A | Target::B | Target::C | Target::D | Target::E | Target::H | Target::L => {
                let x = read8(&self.registers, target);
                let y = (value % 256) as u8;
                self.registers.f = Flags { zero: x == y, sub: true, half: x % 16 < y % 16, carry: x < y };
                write8(&mut self.registers, target, x.wrapping_sub(y));
            },
            _ => {},
        }
    }

    fn adc(&mut self, target: Target, value: usize)
        requires
            adc_ok(old(self).registers, target, value),
        ensures
            final(self)@ == old(self)@.with_regs(adc_spec(old(self).registers, target, value)),
    {
        if let Target::A = target {
            let c: u8 = if self.registers.f.carry {
                1
            } else {
                0
            };
            let a = self.registers.a;
            let y = (value % 256) as u8;
            let s: u16 = a as u16 + y as u16 + c as u16;
            let wide: u32 = a as u32 + (value % 65536) as u32 + c as u32;
            self.registers.f = Flags {
                zero: s % 256 == 0,
                sub: false,
                half: a % 16 + (y % 16 + c) > 15,
                carry: wide > 0xFF,
            };
            self.registers.a = (s % 256) as u8;
        }
    }

    fn sbc(&mut self, target: Target, value: usize)
        requires
            sbc_ok(old(self).registers, target, value),
        ensures
            final(self)@ == old(self)@.with_regs(sbc_spec(old(self).registers, target, value)),
    {
        if let Target::A = target {
            let c: u8 = if self.registers.f.carry {
                1
            } else {
                0
            };
            let a = self.registers.a;
            let y = (value % 256) as u8;
            let w = (value % 65536) as u32;
            let vs: i32 = if w >= 32768 {
                w as i32 - 65536
            } else {
                w as i32
            };
            let d = ((a as u32 + 512 - y as u32 - c as u32) % 256) as u8;
            self.registers.f = Flags {
                zero: d == 0,
                sub: true,
                half: a % 16 < y % 16 + c,
                carry: (a as i32) < vs + c as i32,
            };
            self.registers.a = d;
        }
    }

    fn and(&mut self, value: u8)
        ensures
            final(self)@ == old(self)@.with_regs(and_spec(old(self).registers, value)),
    {
        let new_value = self.registers.a & value;
        self.registers.f = Flags { zero: new_value == 0, sub: false, half: true, carry: false };
        self.registers.a = new_value;
    }

    fn or(&mut self, value: u8)
        ensures
            final(self)@ == old(self)@.with_regs(or_spec(old(self).registers, value)),
    {
        let new_value = self.registers.a | value;
        self.registers.f = Flags { zero: new_value == 0, sub: false, half: false, carry: false };
        self.registers.a = new_value;
    }

    fn xor(&mut self, value: u8)
        ensures
            final(self)@ == old(self)@.with_regs(xor_spec(old(self).registers, value)),
    {
        let new_value = self.registers.a ^ value;
        self.registers.f = Flags { zero: new_value == 0, sub: false, half: false, carry: false };
        self.registers.a = new_value;
    }

    fn cp(&mut self, target: Target, value: usize)
        ensures
            final(self)@ == old(self)@.with_regs(cp_spec(old(self).registers, target, value)),
    {
        if let Target::A = target {
            let x = self.registers.a;
            let y = (value % 256) as u8;
            self.registers.f = Flags { zero: x == y, sub: true, half: x % 16 < y % 16, carry: x < y };
        }
    }

    #[verifier::rlimit(30)]
    fn inc(&mut self, target: Target)
        ensures
            final(self)@ == old(self)@.with_regs(inc_spec(old(self).registers, target)),
    {
        match target {
            Target::SP | Target::HL | Target::DE | Target::BC => {
                let x = read16(&self.registers, target);
                write16(&mut self.registers, target, x.wrapping_add(1));
            },
            Target::AF | Target::F => {},
            _ => {
                let x = read8(&self.registers, target);
                self.registers.f = Flags {
                    zero: x == 255,
                    sub: false,
                    half: x % 16 == 15,
                    carry: self.registers.f.carry,
                };
                write8(&mut self.registers, target, x.wrapping_add(1));
            },
        }
    }

    #[verifier::rlimit(60)]
    fn dec(&mut self, target: Target)
        ensures
            final(self)@ == old(self)@.with_regs(dec_spec(old(self).registers, target)),
    {
        match target {
            Target::SP | Target::HL | Target::DE | Target::BC => {
                let x = read16(&self.registers, target);
                write16(&mut self.registers, target, x.wrapping_sub(1));
            },
            Target::AF | Target::F => {},
            _ => {
                let x = read8(&self.registers, target);
                self.registers.f = Flags {
                    zero: x == 1,
                    sub: true,
                    half: x % 16 == 0,
                    carry: self.registers.f.carry,
                };
                write8(&mut self.registers, target, x.wrapping_sub(1));
            },
        }
    }

    fn ccf(&mut self)
        ensures
            final(self)@ == old(self)@.with_regs(ccf_spec(old(self).registers)),
    {
        self.registers.f.carry = !self.registers.f.carry;
        self.registers.f.sub = false;
        self.registers.f.half = false;
    }

    fn scf(&mut self)
        ensures
            final(self)@ == old(self)@.with_regs(scf_spec(old(self).registers)),
    {
        self.registers.f.carry = true;
        self.registers.f.sub = false;
        self.registers.f.half = false;
    }

    fn cpl(&mut self)
        ensures
            final(self)@ == old(self)@.with_regs(cpl_spec(old(self).registers)),
    {
        self.registers.a = 255 - self.registers.a;
        self.registers.f.half = true;
        self.registers.f.sub = true;
    }

    fn rla(&mut self)
        ensures
            final(self)@ == old(self)@.with_regs(rla_spec(old(self).registers)),
    {
        let a = self.registers.a;
        let val = (a % 128) * 2 + if self.registers.f.carry {
            1
        } else {
            0
        };
        self.registers.f = Flags { zero: false, sub: false, half: false, carry: a >= 128 };
        self.registers.a = val;
    }

    fn rra(&mut self)
        ensures
            final(self)@ == old(self)@.with_regs(rra_spec(old(self).registers)),
    {
        let a = self.registers.a;
        let val = a / 2 + if self.registers.f.carry {
            0x80
        } else {
            0
        };
        self.registers.f = Flags { zero: false, sub: false, half: false, carry: a % 2 == 1 };
        self.registers.a = val;
    }

    /// The operand of a CB instruction: a register, or the byte at HL.
    fn operand(&mut self, t: Target) -> (x: u8)
        requires
            old(self)@.wf(),
            CpuModel::cb_target(t),
            old(self)@.operand_ok(t),
        ensures
            x == old(self)@.operand(t),
            final(self)@ == old(self)@,
    {
        if let Target::HL = t {
            let hl = self.registers.get_hl();
            self.memory.rb(hl)
        } else {
            read8(&self.registers, t)
        }
    }

    /// Stores the result of a CB instruction.
    fn store(&mut self, t: Target, y: u8)
        requires
            old(self)@.wf(),
            CpuModel::cb_target(t),
            old(self)@.store_ok(t, y),
        ensures
            final(self)@ == old(self)@.store(t, y),
            final(self)@.wf(),
    {
        if let Target::HL = t {
            let hl = self.registers.get_hl();
            self.memory.wb(hl, y);
        } else {
            write8(&mut self.registers, t, y);
        }
    }

    fn rlc(&mut self, target: Target)
        requires
            old(self)@.wf(),
            old(self)@.rotate_ok(0, target),
        ensures
            final(self)@ == old(self)@.rotate(0, target),
            final(self)@.wf(),
            final(self).registers.pc == old(self).registers.pc,
    {
        if is_cb_target(target) {
            let x = self.operand(target);
            let c = x >= 128;
            let val = (x % 128) * 2 + if c {
                1
            } else {
                0
            };
            self.registers.f = Flags { zero: val == 0, sub: false, half: false, carry: c };
            self.store(target, val);
        }
    }

    fn rrc(&mut self, target: Target)
        requires
            old(self)@.wf(),
            old(self)@.rotate_ok(1, target),
        ensures
            final(self)@ == old(self)@.rotate(1, target),
            final(self)@.wf(),
            final(self).registers.pc == old(self).registers.pc,
    {
        if is_cb_target(target) {
            let x = self.operand(target);
            let c = x % 2 == 1;
            let val = x / 2 + if c {
                0x80
            } else {
                0
            };
            self.registers.f = Flags { zero: val == 0, sub: false, half: false, carry: c };
            self.store(target, val);
        }
    }

    fn rl(&mut self, target: Target)
        requires
            old(self)@.wf(),
            old(self)@.rotate_ok(2, target),
        ensures
            final(self)@ == old(self)@.rotate(2, target),
            final(self)@.wf(),
            final(self).registers.pc == old(self).registers.pc,
    {
        if is_cb_target(target) {
            let x = self.operand(target);
            let val = (x % 128) * 2 + if self.registers.f.carry {
                1
            } else {
                0
            };
            self.registers.f = Flags { zero: val == 0, sub: false, half: false, carry: x >= 128 };
            self.store(target, val);
        }
    }

    fn rr(&mut self, target: Target)
        requires
            old(self)@.wf(),
            old(self)@.rotate_ok(3, target),
        ensures
            final(self)@ == old(self)@.rotate(3, target),
            final(self)@.wf(),
            final(self).registers.pc == old(self).registers.pc,
    {
        if is_cb_target(target) {
            let x = self.operand(target);
            let val = x / 2 + if self.registers.f.carry {
                0x80
            } else {
                0
            };
            self.registers.f = Flags { zero: val == 0, sub: false, half: false, carry: x % 2 == 1 };
            self.store(target, val);
        }
    }

    fn sla(&mut self, target: Target)
        requires
            old(self)@.wf(),
            old(self)@.rotate_ok(4, target),
        ensures
            final(self)@ == old(self)@.rotate(4, target),
            final(self)@.wf(),
            final(self).registers.pc == old(self).registers.pc,
    {
        if is_cb_target(target) {
            let x = self.operand(target);
            let val = (x % 128) * 2;
            self.registers.f = Flags { zero: val == 0, sub: false, half: false, carry: x >= 128 };
            self.store(target, val);
        }
    }

    fn sra(&mut self, target: Target)
        requires
            old(self)@.wf(),
            old(self)@.rotate_ok(5, target),
        ensures
            final(self)@ == old(self)@.rotate(5, target),
            final(self)@.wf(),
            final(self).registers.pc == old(self).registers.pc,
    {
        if is_cb_target(target) {
            let x = self.operand(target);
            let val = x / 2 + (x / 128) * 128;
            self.registers.f = Flags { zero: val == 0, sub: false, half: false, carry: x % 2 == 1 };
            self.store(target, val);
        }
    }

    fn swap(&mut self, target: Target)
        requires
            old(self)@.wf(),
            old(self)@.rotate_ok(6, target),
        ensures
            final(self)@ == old(self)@.rotate(6, target),
            final(self)@.wf(),
            final(self).registers.pc == old(self).registers.pc,
    {
        if is_cb_target(target) {
            let x = self.operand(target);
            let val = x / 16 + (x % 16) * 16;
            self.registers.f = Flags { zero: val == 0, sub: false, half: false, carry: false };
            self.store(target, val);
        }
    }

    fn srl(&mut self, target: Target)
        requires
            old(self)@.wf(),
            old(self)@.rotate_ok(7, target),
        ensures
            final(self)@ == old(self)@.rotate(7, target),
            final(self)@.wf(),
            final(self).registers.pc == old(self).registers.pc,
    {
        if is_cb_target(target) {
            let x = self.operand(target);
            let val = x / 2;
            self.registers.f = Flags { zero: val == 0, sub: false, half: false, carry: x % 2 == 1 };
            self.store(target, val);
        }
    }

    fn bit(&mut self, target: Target, value: u8)
        requires
            old(self)@.wf(),
            value < 8,
            old(self)@.bit_ok(target),
        ensures
            final(self)@ == old(self)@.bit_test(target, value),
            final(self)@.wf(),
            final(self).registers.pc == old(self).registers.pc,
    {
        if is_cb_target(target) {
            let x = self.operand(target);
            let z = x & (1u8 << value) == 0;
            self.registers.f = Flags {
                zero: z,
                sub: false,
                half: true,
                carry: self.registers.f.carry,
            };
        }
    }

    fn reset(&mut self, target: Target, value: u8)
        requires
            old(self)@.wf(),
            value < 8,
            old(self)@.reset_ok(target, value),
        ensures
            final(self)@ == old(self)@.bit_reset(target, value),
            final(self)@.wf(),
            final(self).registers.pc == old(self).registers.pc,
    {
        if is_cb_target(target) {
            let x = self.operand(target);
            self.store(target, x & !(1u8 << value));
        }
    }

    fn set(&mut self, target: Target, value: u8)
        requires
            old(self)@.wf(),
            value < 8,
            old(self)@.set_ok(target, value),
        ensures
            final(self)@ == old(self)@.bit_set(target, value),
            final(self)@.wf(),
            final(self).registers.pc == old(self).registers.pc,
    {
        if is_cb_target(target) {
            let x = self.operand(target);
            self.store(target, x | (1u8 << value));
        }
    }
}

//gb functions
impl CPU {
    /// Loads `value` into `target`: an 8-bit register takes its low byte,
    /// SP or a register pair its low 16 bits.
    pub fn ld(&mut self, target: Target, value: usize)
        ensures
            final(self)@ == old(self)@.with_regs(ld_spec(old(self).registers, target, value)),
    {
        match target {
            Target::F => {},
            Target::A | Target::B | Target::C | Target::D | Target::E | Target::H | Target::L => {
                write8(&mut self.registers, target, (value % 256) as u8);
            },
            _ => {
                write16(&mut self.registers, target, (value % 65536) as u16);
            },
        }
    }
}

/// Operand `i` of the regular encodings: B, C, D, E, H, L, (HL), A.
pub open spec fn reg_target(i: int) -> Target {
    if i == 0 {
        Target::B
    } else if i == 1 {
        Target::C
    } else if i == 2 {
        Target::D
    } else if i == 3 {
        Target::E
    } else if i == 4 {
        Target::H
    } else if i == 5 {
        Target::L
    } else if i == 6 {
        Target::HL
    } else {
        Target::A
    }
}

/// The register pair that row `r` of the 16-bit loads and arithmetic
/// names: BC, DE, HL, SP.
pub open spec fn pair_at(r: int) -> Target {
    if r == 0 {
        Target::BC
    } else if r == 1 {
        Target::DE
    } else if r == 2 {
        Target::HL
    } else {
        Target::SP
    }
}

/// The register pair that row `r` of PUSH and POP names: BC, DE, HL, AF.
pub open spec fn stack_pair(r: int) -> Target {
    if r == 0 {
        Target::BC
    } else if r == 1 {
        Target::DE
    } else if r == 2 {
        Target::HL
    } else {
        Target::AF
    }
}

/// The 8-bit register in the even (B, D, H) and odd (C, E, L, A) halves
/// of the first block's rows.
pub open spec fn even_reg(r: int) -> Target {
    if r == 0 {
        Target::B
    } else if r == 1 {
        Target::D
    } else {
        Target::H
    }
}

pub open spec fn odd_reg(r: int) -> Target {
    if r == 0 {
        Target::C
    } else if r == 1 {
        Target::E
    } else if r == 2 {
        Target::L
    } else {
        Target::A
    }
}

fn reg_target_of(i: u8) -> (t: Target)
    requires
        i < 8,
    ensures
        t == reg_target(i as int),
{
    match i {
        0 => Target::B,
        1 => Target::C,
        2 => Target::D,
        3 => Target::E,
        4 => Target::H,
        5 => Target::L,
        6 => Target::HL,
        _ => Target::A,
    }
}

fn pair_at_of(r: u8) -> (t: Target)
    ensures
        t == pair_at(r as int),
{
    match r {
        0 => Target::BC,
        1 => Target::DE,
        2 => Target::HL,
        _ => Target::SP,
    }
}

fn stack_pair_of(r: u8) -> (t: Target)
    ensures
        t == stack_pair(r as int),
{
    match r {
        0 => Target::BC,
        1 => Target::DE,
        2 => Target::HL,
        _ => Target::AF,
    }
}

fn even_reg_of(r: u8) -> (t: Target)
    ensures
        t == even_reg(r as int),
{
    match r {
        0 => Target::B,
        1 => Target::D,
        _ => Target::H,
    }
}

fn odd_reg_of(r: u8) -> (t: Target)
    ensures
        t == odd_reg(r as int),
{
    match r {
        0 => Target::C,
        1 => Target::E,
        2 => Target::L,
        _ => Target::A,
    }
}

impl CpuModel {
    /// PC advanced by `n`.
    pub open spec fn advance(self, n: int) -> CpuModel {
        self.with_regs(Registers { pc: (self.regs.pc + n) as u16, ..self.regs })
    }

    pub open spec fn pc_fits(self, n: int) -> bool {
        self.regs.pc + n <= 0xFFFF
    }

    pub open spec fn with_pc(self, pc: u16) -> CpuModel {
        self.with_regs(Registers { pc, ..self.regs })
    }

    /// A relative jump: PC past the two-byte instruction, then moved by the
    /// signed offset in the low byte of `v` when `cond` holds.
    pub open spec fn jr(self, v: usize, cond: bool) -> (CpuModel, u8) {
        let pc2 = self.regs.pc + 2;
        if cond {
            (self.with_pc(((pc2 + signed8(v as int % 256) + 65536) % 65536) as u16), 12)
        } else {
            (self.with_pc(pc2 as u16), 8)
        }
    }

    /// SP minus `n`, wrapping.
    pub open spec fn sp_down(self, n: int) -> u16 {
        ((self.regs.sp + 65536 - n) % 65536) as u16
    }

    /// SP plus `n`, wrapping.
    pub open spec fn sp_up(self, n: int) -> u16 {
        ((self.regs.sp + n) % 65536) as u16
    }

    pub open spec fn push_ok(self, val: u16) -> bool {
        &&& self.mem.write_ok(self.sp_down(1), hi_byte(val))
        &&& self.mem.write(self.sp_down(1), hi_byte(val)).write_ok(self.sp_down(2), lo_byte(val))
    }

    /// `val` pushed: high byte at SP - 1, low byte at SP - 2, SP down by 2.
    pub open spec fn push(self, val: u16) -> CpuModel {
        CpuModel {
            mem: self.mem.write(self.sp_down(1), hi_byte(val)).write(self.sp_down(2), lo_byte(val)),
            regs: Registers { sp: self.sp_down(2), ..self.regs },
            ..self
        }
    }

    pub open spec fn pop_ok(self) -> bool {
        self.mem.read_ok(self.sp_up(1)) && self.mem.read_ok(self.regs.sp)
    }

    /// The word on top of the stack: high byte at SP + 1, low byte at SP.
    pub open spec fn top(self) -> u16 {
        (self.mem.read(self.sp_up(1)) * 256 + self.mem.read(self.regs.sp)) as u16
    }

    /// The top of the stack dropped.
    pub open spec fn popped(self) -> CpuModel {
        self.with_regs(Registers { sp: self.sp_up(2), ..self.regs })
    }
}

impl CPU {
    fn jr(&mut self, v: usize, cond: bool) -> (r: u8)
        requires
            old(self)@.pc_fits(2),
        ensures
            (final(self)@, r) == old(self)@.jr(v, cond),
    {
        self.registers.pc += 2;
        if cond {
            let b = (v % 256) as u16;
            let off: u16 = if b >= 128 {
                b + 0xFF00
            } else {
                b
            };
            self.registers.pc = self.registers.pc.wrapping_add(off);
            12
        } else {
            8
        }
    }

    fn push16(&mut self, val: u16)
        requires
            old(self)@.wf(),
            old(self)@.push_ok(val),
        ensures
            final(self)@ == old(self)@.push(val),
            final(self)@.wf(),
    {
        self.memory.wb(self.registers.sp.wrapping_sub(1), (val / 256) as u8);
        self.memory.wb(self.registers.sp.wrapping_sub(2), (val % 256) as u8);
        self.registers.sp = self.registers.sp.wrapping_sub(2);
    }

    fn pop16(&mut self) -> (r: u16)
        requires
            old(self)@.wf(),
            old(self)@.pop_ok(),
        ensures
            r == old(self)@.top(),
            final(self)@ == old(self)@.popped(),
    {
        let hi = self.memory.rb(self.registers.sp.wrapping_add(1));
        let lo = self.memory.rb(self.registers.sp);
        self.registers.sp = self.registers.sp.wrapping_add(2);
        (hi as u16) * 256 + lo as u16
    }
}

impl CpuModel {
    /// The address that row `r` of the indirect A loads and stores uses:
    /// BC, DE, HL (then incremented), HL (then decremented).
    pub open spec fn indirect_addr(self, r: int) -> u16 {
        if r == 0 {
            self.regs.spec_bc()
        } else if r == 1 {
            self.regs.spec_de()
        } else {
            self.hl()
        }
    }

    /// HL stepped after an indirect access in row `r` (rows 2 and 3).
    pub open spec fn hl_stepped(self, r: int) -> CpuModel {
        if r == 2 {
            self.with_regs(set16(self.regs, Target::HL, ((self.hl() + 1) % 65536) as u16))
        } else if r == 3 {
            self.with_regs(set16(self.regs, Target::HL, ((self.hl() + 65535) % 65536) as u16))
        } else {
            self
        }
    }

    /// The byte INC (HL) and DEC (HL) write.
    pub open spec fn inc_byte(x: u8) -> u8 {
        ((x + 1) % 256) as u8
    }

    pub open spec fn dec_byte(x: u8) -> u8 {
        ((x + 255) % 256) as u8
    }

    /// Whether an instruction of the first block (0x00..=0x3F) runs without
    /// stopping the machine.
    #[verifier::opaque]
    pub open spec fn low_ok(self, op: u8, v: usize) -> bool {
        let c = op % 16;
        let r = op / 16;
        let hl = self.hl();
        if c == 0 {
            self.pc_fits(if r == 0 {
                1
            } else {
                2
            })
        } else if c == 1 {
            self.pc_fits(3)
        } else if c == 2 {
            self.mem.write_ok(self.indirect_addr(r as int), self.regs.a) && self.pc_fits(1)
        } else if c == 4 && r == 3 {
            self.mem.read_ok(hl) && self.mem.write_ok(
                hl,
                CpuModel::inc_byte(self.mem.read(hl)),
            ) && self.pc_fits(1)
        } else if c == 5 && r == 3 {
            self.mem.read_ok(hl) && self.mem.write_ok(
                hl,
                CpuModel::dec_byte(self.mem.read(hl)),
            ) && self.pc_fits(1)
        } else if c == 6 {
            (r == 3 ==> self.mem.write_ok(hl, (v % 256) as u8)) && self.pc_fits(2)
        } else if c == 8 {
            if r == 0 {
                &&& v < usize::MAX
                &&& self.mem.write_ok((v % 65536) as u16, (self.regs.sp % 256) as u8)
                &&& self.mem.write((v % 65536) as u16, (self.regs.sp % 256) as u8).write_ok(
                    ((v + 1) % 65536) as u16,
                    (self.regs.sp / 256) as u8,
                )
                &&& self.pc_fits(3)
            } else {
                self.pc_fits(2)
            }
        } else if c == 0xA {
            self.mem.read_ok(self.indirect_addr(r as int)) && self.pc_fits(1)
        } else if c == 0xE {
            self.pc_fits(2)
        } else {
            self.pc_fits(1)
        }
    }

    /// NOP, STOP, JR NZ, JR NC.
    #[verifier::opaque]
    pub open spec fn low_x0(self, r: int, v: usize) -> (CpuModel, u8) {
        if r == 0 {
            (self.advance(1), 4)
        } else if r == 1 {
            (self.advance(2), 4)
        } else if r == 2 {
            self.jr(v, !self.regs.f.zero)
        } else {
            self.jr(v, !self.regs.f.carry)
        }
    }

    /// LD BC/DE/HL/SP, d16.
    #[verifier::opaque]
    pub open spec fn low_x1(self, r: int, v: usize) -> (CpuModel, u8) {
        (self.with_regs(ld_spec(self.regs, pair_at(r), v)).advance(3), 12)
    }

    /// LD (BC),A; LD (DE),A; LD (HL+),A; LD (HL-),A.
    #[verifier::opaque]
    pub open spec fn low_x2(self, r: int) -> (CpuModel, u8) {
        let m = CpuModel { mem: self.mem.write(self.indirect_addr(r), self.regs.a), ..self };
        (m.hl_stepped(r).advance(1), 8)
    }

    /// INC BC/DE/HL/SP.
    #[verifier::opaque]
    pub open spec fn low_x3(self, r: int) -> (CpuModel, u8) {
        (self.with_regs(inc_spec(self.regs, pair_at(r))).advance(1), 8)
    }

    /// INC B/D/H/(HL).
    #[verifier::opaque]
    pub open spec fn low_x4(self, r: int) -> (CpuModel, u8) {
        if r < 3 {
            (self.with_regs(inc_spec(self.regs, even_reg(r))).advance(1), 4)
        } else {
            let x = self.mem.read(self.hl());
            let n = CpuModel::inc_byte(x);
            (CpuModel {
                mem: self.mem.write(self.hl(), n),
                regs: Registers {
                    f: Flags { zero: n == 0, sub: false, half: x % 16 == 15, ..self.regs.f },
                    ..self.regs
                },
                ..self
            }.advance(1), 12)
        }
    }

    /// DEC B/D/H/(HL).
    #[verifier::opaque]
    pub open spec fn low_x5(self, r: int) -> (CpuModel, u8) {
        if r < 3 {
            (self.with_regs(dec_spec(self.regs, even_reg(r))).advance(1), 4)
        } else {
            let x = self.mem.read(self.hl());
            let n = CpuModel::dec_byte(x);
            (CpuModel {
                mem: self.mem.write(self.hl(), n),
                regs: Registers {
                    f: Flags { zero: n == 0, sub: true, half: x % 16 == 0, ..self.regs.f },
                    ..self.regs
                },
                ..self
            }.advance(1), 12)
        }
    }

    /// LD B/D/H, d8; LD (HL), d8.
    #[verifier::opaque]
    pub open spec fn low_x6(self, r: int, v: usize) -> (CpuModel, u8) {
        if r < 3 {
            (self.with_regs(ld_spec(self.regs, even_reg(r), v)).advance(2), 8)
        } else {
            (CpuModel { mem: self.mem.write(self.hl(), (v % 256) as u8), ..self }.advance(2), 12)
        }
    }

    /// RLCA, RLA, DAA, SCF.
    #[verifier::opaque]
    pub open spec fn low_x7(self, r: int) -> (CpuModel, u8) {
        let regs = if r == 0 {
            rlca_spec(self.regs)
        } else if r == 1 {
            rla_spec(self.regs)
        } else if r == 2 {
            daa_spec(self.regs)
        } else {
            scf_spec(self.regs)
        };
        (self.with_regs(regs).advance(1), 4)
    }

    /// LD (a16),SP; JR; JR Z; JR C.
    #[verifier::opaque]
    pub open spec fn low_x8(self, r: int, v: usize) -> (CpuModel, u8) {
        if r == 0 {
            (CpuModel {
                mem: self.mem.write((v % 65536) as u16, (self.regs.sp % 256) as u8).write(
                    ((v + 1) % 65536) as u16,
                    (self.regs.sp / 256) as u8,
                ),
                ..self
            }.advance(3), 20)
        } else if r == 1 {
            self.jr(v, true)
        } else if r == 2 {
            self.jr(v, self.regs.f.zero)
        } else {
            self.jr(v, self.regs.f.carry)
        }
    }

    /// ADD HL, BC/DE/HL/SP.
    #[verifier::opaque]
    pub open spec fn low_x9(self, r: int) -> (CpuModel, u8) {
        (self.with_regs(
            add_spec(self.regs, Target::HL, get16(self.regs, pair_at(r)) as usize),
        ).advance(1), 8)
    }

    /// LD A,(BC); LD A,(DE); LD A,(HL+); LD A,(HL-).
    #[verifier::opaque]
    pub open spec fn low_xa(self, r: int) -> (CpuModel, u8) {
        let x = self.mem.read(self.indirect_addr(r));
        (self.with_regs(Registers { a: x, ..self.regs }).hl_stepped(r).advance(1), 8)
    }

    /// DEC BC/DE/HL/SP.
    #[verifier::opaque]
    pub open spec fn low_xb(self, r: int) -> (CpuModel, u8) {
        (self.with_regs(dec_spec(self.regs, pair_at(r))).advance(1), 8)
    }

    /// INC C/E/L/A.
    #[verifier::opaque]
    pub open spec fn low_xc(self, r: int) -> (CpuModel, u8) {
        (self.with_regs(inc_spec(self.regs, odd_reg(r))).advance(1), 4)
    }

    /// DEC C/E/L/A.
    #[verifier::opaque]
    pub open spec fn low_xd(self, r: int) -> (CpuModel, u8) {
        (self.with_regs(dec_spec(self.regs, odd_reg(r))).advance(1), 4)
    }

    /// LD C/E/L/A, d8.
    #[verifier::opaque]
    pub open spec fn low_xe(self, r: int, v: usize) -> (CpuModel, u8) {
        (self.with_regs(ld_spec(self.regs, odd_reg(r), v)).advance(2), 8)
    }

    /// RRCA, RRA, CPL, CCF.
    #[verifier::opaque]
    pub open spec fn low_xf(self, r: int) -> (CpuModel, u8) {
        let regs = if r == 0 {
            rrca_spec(self.regs)
        } else if r == 1 {
            rra_spec(self.regs)
        } else if r == 2 {
            cpl_spec(self.regs)
        } else {
            ccf_spec(self.regs)
        };
        (self.with_regs(regs).advance(1), 4)
    }

    /// An instruction of the first block (0x00..=0x3F), by column.
    pub open spec fn low(self, op: u8, v: usize) -> (CpuModel, u8) {
        let c = op % 16;
        let r = (op / 16) as int;
        if c == 0 {
            self.low_x0(r, v)
        } else if c == 1 {
            self.low_x1(r, v)
        } else if c == 2 {
            self.low_x2(r)
        } else if c == 3 {
            self.low_x3(r)
        } else if c == 4 {
            self.low_x4(r)
        } else if c == 5 {
            self.low_x5(r)
        } else if c == 6 {
            self.low_x6(r, v)
        } else if c == 7 {
            self.low_x7(r)
        } else if c == 8 {
            self.low_x8(r, v)
        } else if c == 9 {
            self.low_x9(r)
        } else if c == 10 {
            self.low_xa(r)
        } else if c == 11 {
            self.low_xb(r)
        } else if c == 12 {
            self.low_xc(r)
        } else if c == 13 {
            self.low_xd(r)
        } else if c == 14 {
            self.low_xe(r, v)
        } else {
            self.low_xf(r)
        }
    }
}

impl CPU {
    fn rlca(&mut self)
        ensures
            final(self)@ == old(self)@.with_regs(rlca_spec(old(self).registers)),
    {
        let a = self.registers.a;
        let c = a >= 128;
        let new_val = (a % 128) * 2 + if c {
            1
        } else {
            0
        };
        self.registers.f = Flags { zero: false, sub: false, half: false, carry: c };
        self.registers.a = new_val;
    }

    fn rrca(&mut self)
        ensures
            final(self)@ == old(self)@.with_regs(rrca_spec(old(self).registers)),
    {
        let a = self.registers.a;
        let c = a % 2 == 1;
        let new_val = a / 2 + if c {
            0x80
        } else {
            0
        };
        self.registers.f = Flags { zero: false, sub: false, half: false, carry: c };
        self.registers.a = new_val;
    }

    fn daa(&mut self)
        ensures
            final(self)@ == old(self)@.with_regs(daa_spec(old(self).registers)),
    {
        let a = self.registers.a;
        let sub = self.registers.f.sub;
        let six = self.registers.f.half || (!sub && a % 16 > 9);
        let sixty = self.registers.f.carry || (!sub && a > 0x99);
        let adjust: u8 = (if sixty {
            0x60
        } else {
            0
        }) + (if six {
            6
        } else {
            0
        });
        let n = if !sub {
            a.wrapping_add(adjust)
        } else {
            a.wrapping_sub(adjust)
        };
        self.registers.f = Flags { zero: n == 0, sub, half: false, carry: sixty };
        self.registers.a = n;
    }

    /// The address of an indirect A load or store in row `r`.
    fn indirect_addr(&self, r: u8) -> (a: u16)
        ensures
            a == self@.indirect_addr(r as int),
    {
        if r == 0 {
            self.registers.get_bc()
        } else if r == 1 {
            self.registers.get_de()
        } else {
            self.registers.get_hl()
        }
    }

    fn step_hl(&mut self, r: u8)
        ensures
            final(self)@ == old(self)@.hl_stepped(r as int),
    {
        if r == 2 {
            let hl = self.registers.get_hl();
            self.registers.set_hl(hl.wrapping_add(1));
        } else if r == 3 {
            let hl = self.registers.get_hl();
            self.registers.set_hl(hl.wrapping_sub(1));
        }
    }

    fn low_x0(&mut self, op: u8, v: usize) -> (c: u8)
        requires
            old(self)@.wf(),
            op < 0x40,
            op % 16 == 0,
            old(self)@.low_ok(op, v),
        ensures
            (final(self)@, c) == old(self)@.low_x0((op / 16) as int, v),
            final(self)@.wf(),
            c >= 4,
            final(self).delay == old(self).delay,
    {
        reveal(CpuModel::low_ok);
        reveal(CpuModel::low_x0);
        let r = op / 16;
        if r == 0 {
            self.registers.pc += 1;
            4
        } else if r == 1 {
            self.registers.pc += 2;
            4
        } else if r == 2 {
            let z = self.registers.get_zero();
            self.jr(v, !z)
        } else {
            let c = self.registers.get_carry();
            self.jr(v, !c)
        }
    }

    fn low_x1(&mut self, op: u8, v: usize) -> (c: u8)
        requires
            old(self)@.wf(),
            op < 0x40,
            op % 16 == 1,
            old(self)@.low_ok(op, v),
        ensures
            (final(self)@, c) == old(self)@.low_x1((op / 16) as int, v),
            final(self)@.wf(),
            c >= 4,
            final(self).delay == old(self).delay,
    {
        reveal(CpuModel::low_ok);
        reveal(CpuModel::low_x1);
        self.ld(pair_at_of(op / 16), v);
        self.registers.pc += 3;
        12
    }

    fn low_x2(&mut self, op: u8, v: usize) -> (c: u8)
        requires
            old(self)@.wf(),
            op < 0x40,
            op % 16 == 2,
            old(self)@.low_ok(op, v),
        ensures
            (final(self)@, c) == old(self)@.low_x2((op / 16) as int),
            final(self)@.wf(),
            c >= 4,
            final(self).delay == old(self).delay,
    {
        reveal(CpuModel::low_ok);
        reveal(CpuModel::low_x2);
        let r = op / 16;
        let addr = self.indirect_addr(r);
        self.memory.wb(addr, self.registers.a);
        self.step_hl(r);
        self.registers.pc += 1;
        8
    }

    fn low_x3(&mut self, op: u8, v: usize) -> (c: u8)
        requires
            old(self)@.wf(),
            op < 0x40,
            op % 16 == 3,
            old(self)@.low_ok(op, v),
        ensures
            (final(self)@, c) == old(self)@.low_x3((op / 16) as int),
            final(self)@.wf(),
            c >= 4,
            final(self).delay == old(self).delay,
    {
        reveal(CpuModel::low_ok);
        reveal(CpuModel::low_x3);
        self.inc(pair_at_of(op / 16));
        self.registers.pc += 1;
        8
    }

    fn low_x4(&mut self, op: u8, v: usize) -> (c: u8)
        requires
            old(self)@.wf(),
            op < 0x40,
            op % 16 == 4,
            old(self)@.low_ok(op, v),
        ensures
            (final(self)@, c) == old(self)@.low_x4((op / 16) as int),
            final(self)@.wf(),
            c >= 4,
            final(self).delay == old(self).delay,
    {
        reveal(CpuModel::low_ok);
        reveal(CpuModel::low_x4);
        let r = op / 16;
        if r < 3 {
            self.inc(even_reg_of(r));
            self.registers.pc += 1;
            4
        } else {
            let hl = self.registers.get_hl();
            let val = self.memory.rb(hl);
            let new_value = val.wrapping_add(1);
            self.registers.f.zero = new_value == 0;
            self.registers.f.sub = false;
            self.registers.f.half = val % 16 == 15;
            self.memory.wb(hl, new_value);
            self.registers.pc += 1;
            12
        }
    }

    fn low_x5(&mut self, op: u8, v: usize) -> (c: u8)
        requires
            old(self)@.wf(),
            op < 0x40,
            op % 16 == 5,
            old(self)@.low_ok(op, v),
        ensures
            (final(self)@, c) == old(self)@.low_x5((op / 16) as int),
            final(self)@.wf(),
            c >= 4,
            final(self).delay == old(self).delay,
    {
        reveal(CpuModel::low_ok);
        reveal(CpuModel::low_x5);
        let r = op / 16;
        if r < 3 {
            self.dec(even_reg_of(r));
            self.registers.pc += 1;
            4
        } else {
            let hl = self.registers.get_hl();
            let val = self.memory.rb(hl);
            let new_val = val.wrapping_sub(1);
            self.registers.f.zero = new_val == 0;
            self.registers.f.sub = true;
            self.registers.f.half = val % 16 == 0;
            self.memory.wb(hl, new_val);
            self.registers.pc += 1;
            12
        }
    }

    fn low_x6(&mut self, op: u8, v: usize) -> (c: u8)
        requires
            old(self)@.wf(),
            op < 0x40,
            op % 16 == 6,
            old(self)@.low_ok(op, v),
        ensures
            (final(self)@, c) == old(self)@.low_x6((op / 16) as int, v),
            final(self)@.wf(),
            c >= 4,
            final(self).delay == old(self).delay,
    {
        reveal(CpuModel::low_ok);
        reveal(CpuModel::low_x6);
        let r = op / 16;
        if r < 3 {
            self.ld(even_reg_of(r), v);
            self.registers.pc += 2;
            8
        } else {
            let hl = self.registers.get_hl();
            self.memory.wb(hl, (v % 256) as u8);
            self.registers.pc += 2;
            12
        }
    }

    fn low_x7(&mut self, op: u8, v: usize) -> (c: u8)
        requires
            old(self)@.wf(),
            op < 0x40,
            op % 16 == 7,
            old(self)@.low_ok(op, v),
        ensures
            (final(self)@, c) == old(self)@.low_x7((op / 16) as int),
            final(self)@.wf(),
            c >= 4,
            final(self).delay == old(self).delay,
    {
        reveal(CpuModel::low_ok);
        reveal(CpuModel::low_x7);
        let r = op / 16;
        if r == 0 {
            self.rlca();
        } else if r == 1 {
            self.rla();
        } else if r == 2 {
            self.daa();
        } else {
            self.scf();
        }
        self.registers.pc += 1;
        4
    }

    fn low_x8(&mut self, op: u8, v: usize) -> (c: u8)
        requires
            old(self)@.wf(),
            op < 0x40,
            op % 16 == 8,
            old(self)@.low_ok(op, v),
        ensures
            (final(self)@, c) == old(self)@.low_x8((op / 16) as int, v),
            final(self)@.wf(),
            c >= 4,
            final(self).delay == old(self).delay,
    {
        reveal(CpuModel::low_ok);
        reveal(CpuModel::low_x8);
        let r = op / 16;
        if r == 0 {
            let sp = self.registers.sp;
            self.memory.wb((v % 65536) as u16, (sp % 256) as u8);
            self.memory.wb(((v + 1) % 65536) as u16, (sp / 256) as u8);
            self.registers.pc += 3;
            20
        } else if r == 1 {
            self.jr(v, true)
        } else if r == 2 {
            let z = self.registers.get_zero();
            self.jr(v, z)
        } else {
            let c = self.registers.get_carry();
            self.jr(v, c)
        }
    }

    fn low_x9(&mut self, op: u8, v: usize) -> (c: u8)
        requires
            old(self)@.wf(),
            op < 0x40,
            op % 16 == 9,
            old(self)@.low_ok(op, v),
        ensures
            (final(self)@, c) == old(self)@.low_x9((op / 16) as int),
            final(self)@.wf(),
            c >= 4,
            final(self).delay == old(self).delay,
    {
        reveal(CpuModel::low_ok);
        reveal(CpuModel::low_x9);
        let x = read16(&self.registers, pair_at_of(op / 16));
        self.add(Target::HL, x as usize);
        self.registers.pc += 1;
        8
    }

    fn low_xa(&mut self, op: u8, v: usize) -> (c: u8)
        requires
            old(self)@.wf(),
            op < 0x40,
            op % 16 == 10,
            old(self)@.low_ok(op, v),
        ensures
            (final(self)@, c) == old(self)@.low_xa((op / 16) as int),
            final(self)@.wf(),
            c >= 4,
            final(self).delay == old(self).delay,
    {
        reveal(CpuModel::low_ok);
        reveal(CpuModel::low_xa);
        let r = op / 16;
        let addr = self.indirect_addr(r);
        let val = self.memory.rb(addr);
        self.registers.a = val;
        self.step_hl(r);
        self.registers.pc += 1;
        8
    }

    fn low_xb(&mut self, op: u8, v: usize) -> (c: u8)
        requires
            old(self)@.wf(),
            op < 0x40,
            op % 16 == 11,
            old(self)@.low_ok(op, v),
        ensures
            (final(self)@, c) == old(self)@.low_xb((op / 16) as int),
            final(self)@.wf(),
            c >= 4,
            final(self).delay == old(self).delay,
    {
        reveal(CpuModel::low_ok);
        reveal(CpuModel::low_xb);
        self.dec(pair_at_of(op / 16));
        self.registers.pc += 1;
        8
    }

    fn low_xc(&mut self, op: u8, v: usize) -> (c: u8)
        requires
            old(self)@.wf(),
            op < 0x40,
            op % 16 == 12,
            old(self)@.low_ok(op, v),
        ensures
            (final(self)@, c) == old(self)@.low_xc((op / 16) as int),
            final(self)@.wf(),
            c >= 4,
            final(self).delay == old(self).delay,
    {
        reveal(CpuModel::low_ok);
        reveal(CpuModel::low_xc);
        self.inc(odd_reg_of(op / 16));
        self.registers.pc += 1;
        4
    }

    fn low_xd(&mut self, op: u8, v: usize) -> (c: u8)
        requires
            old(self)@.wf(),
            op < 0x40,
            op % 16 == 13,
            old(self)@.low_ok(op, v),
        ensures
            (final(self)@, c) == old(self)@.low_xd((op / 16) as int),
            final(self)@.wf(),
            c >= 4,
            final(self).delay == old(self).delay,
    {
        reveal(CpuModel::low_ok);
        reveal(CpuModel::low_xd);
        self.dec(odd_reg_of(op / 16));
        self.registers.pc += 1;
        4
    }

    fn low_xe(&mut self, op: u8, v: usize) -> (c: u8)
        requires
            old(self)@.wf(),
            op < 0x40,
            op % 16 == 14,
            old(self)@.low_ok(op, v),
        ensures
            (final(self)@, c) == old(self)@.low_xe((op / 16) as int, v),
            final(self)@.wf(),
            c >= 4,
            final(self).delay == old(self).delay,
    {
        reveal(CpuModel::low_ok);
        reveal(CpuModel::low_xe);
        self.ld(odd_reg_of(op / 16), v);
        self.registers.pc += 2;
        8
    }

    fn low_xf(&mut self, op: u8, v: usize) -> (c: u8)
        requires
            old(self)@.wf(),
            op < 0x40,
            op % 16 == 15,
            old(self)@.low_ok(op, v),
        ensures
            (final(self)@, c) == old(self)@.low_xf((op / 16) as int),
            final(self)@.wf(),
            c >= 4,
            final(self).delay == old(self).delay,
    {
        reveal(CpuModel::low_ok);
        reveal(CpuModel::low_xf);
        let r = op / 16;
        if r == 0 {
            self.rrca();
        } else if r == 1 {
            self.rra();
        } else if r == 2 {
            self.cpl();
        } else {
            self.ccf();
        }
        self.registers.pc += 1;
        4
    }
}

/// The accumulator operation of row `k` of the 0x80..=0xBF block and of the
/// immediate forms: ADD, ADC, SUB, SBC, AND, XOR, OR, CP.
pub open spec fn alu_spec(r: Registers, k: int, value: usize) -> Registers {
    if k == 0 {
        add_spec(r, Target::A, value)
    } else if k == 1 {
        adc_spec(r, Target::A, value)
    } else if k == 2 {
        sub_spec(r, Target::A, value)
    } else if k == 3 {
        sbc_spec(r, Target::A, value)
    } else if k == 4 {
        and_spec(r, (value % 256) as u8)
    } else if k == 5 {
        xor_spec(r, (value % 256) as u8)
    } else if k == 6 {
        or_spec(r, (value % 256) as u8)
    } else {
        cp_spec(r, Target::A, value)
    }
}

pub open spec fn alu_ok(r: Registers, k: int, value: usize) -> bool {
    (k == 1 ==> adc_ok(r, Target::A, value)) && (k == 3 ==> sbc_ok(r, Target::A, value))
}

impl CpuModel {
    /// Whether an instruction of the 0x40..=0x7F block runs.
    pub open spec fn ld_block_ok(self, op: u8) -> bool {
        let d = (op / 8) % 8;
        let i = op % 8;
        &&& self.pc_fits(1)
        &&& (op != 0x76 && d == 6 ==> self.mem.write_ok(
            self.hl(),
            get8(self.regs, reg_target(i as int)),
        ))
        &&& (op != 0x76 && i == 6 ==> self.mem.read_ok(self.hl()))
    }

    /// LD r, r' (r' read at HL for operand 6, r written at HL for
    /// destination 6), and HALT at 0x76.
    pub open spec fn ld_block(self, op: u8) -> (CpuModel, u8) {
        let d = ((op / 8) % 8) as int;
        let i = (op % 8) as int;
        if op == 0x76 {
            (CpuModel { halted: true, ..self }.advance(1), 4)
        } else if d == 6 {
            (CpuModel {
                mem: self.mem.write(self.hl(), get8(self.regs, reg_target(i))),
                ..self
            }.advance(1), 8)
        } else {
            let x = self.operand(reg_target(i));
            (self.with_regs(set8(self.regs, reg_target(d), x)).advance(1), if i == 6 {
                8
            } else {
                4
            })
        }
    }

    /// Whether an instruction of the 0x80..=0xBF block runs.
    pub open spec fn alu_block_ok(self, op: u8) -> bool {
        &&& self.pc_fits(1)
        &&& (op % 8 == 6 ==> self.mem.read_ok(self.hl()))
    }

    /// The accumulator operations on registers and (HL).
    pub open spec fn alu_block(self, op: u8) -> (CpuModel, u8) {
        let i = (op % 8) as int;
        let x = self.operand(reg_target(i));
        (self.with_regs(alu_spec(self.regs, ((op / 8) % 8) as int, x as usize)).advance(1), if i
            == 6 {
            8
        } else {
            4
        })
    }
}

impl CPU {
    /// Applies accumulator operation `k` to `value`.
    fn alu(&mut self, k: u8, value: usize)
        requires
            k < 8,
            alu_ok(old(self).registers, k as int, value),
        ensures
            final(self)@ == old(self)@.with_regs(alu_spec(old(self).registers, k as int, value)),
    {
        match k {
            0 => self.add(Target::A, value),
            1 => self.adc(Target::A, value),
            2 => self.sub(Target::A, value),
            3 => self.sbc(Target::A, value),
            4 => self.and((value % 256) as u8),
            5 => self.xor((value % 256) as u8),
            6 => self.or((value % 256) as u8),
            _ => self.cp(Target::A, value),
        }
    }

    #[verifier::rlimit(30)]
    fn ld_block(&mut self, op: u8) -> (c: u8)
        requires
            old(self)@.wf(),
            0x40 <= op < 0x80,
            old(self)@.ld_block_ok(op),
        ensures
            (final(self)@, c) == old(self)@.ld_block(op),
            final(self)@.wf(),
            c >= 4,
            final(self).delay == old(self).delay,
    {
        if op == 0x76 {
            self.halted = true;
            self.registers.pc += 1;
            return 4;
        }
        let d = (op / 8) % 8;
        let i = op % 8;
        if d == 6 {
            let x = read8(&self.registers, reg_target_of(i));
            let hl = self.registers.get_hl();
            self.memory.wb(hl, x);
            self.registers.pc += 1;
            8
        } else {
            let x = self.operand(reg_target_of(i));
            write8(&mut self.registers, reg_target_of(d), x);
            self.registers.pc += 1;
            if i == 6 {
                8
            } else {
                4
            }
        }
    }

    #[verifier::rlimit(40)]
    fn alu_block(&mut self, op: u8) -> (c: u8)
        requires
            old(self)@.wf(),
            0x80 <= op < 0xC0,
            old(self)@.alu_block_ok(op),
        ensures
            (final(self)@, c) == old(self)@.alu_block(op),
            final(self)@.wf(),
            c >= 4,
            final(self).delay == old(self).delay,
    {
        let i = op % 8;
        let x = self.operand(reg_target_of(i));
        self.alu((op / 8) % 8, x as usize);
        self.registers.pc += 1;
        if i == 6 {
            8
        } else {
            4
        }
    }
}

/// LD HL,SP+r8: HL takes SP plus the signed low byte of `v`; half-carry and
/// carry come from the low byte's addition, Zero and Subtract are clear.
pub open spec fn hl_sp_spec(r: Registers, v: usize) -> Registers {
    let b = v as int % 256;
    let sp = r.sp as int;
    set16(
        Registers {
            f: Flags { zero: false, sub: false, half: sp % 16 + b % 16 > 15, carry: sp % 256 + b > 255 },
            ..r
        },
        Target::HL,
        ((sp + sext16(v)) % 65536) as u16,
    )
}

/// The low byte of `v` sign-extended to 16 bits.
pub open spec fn sext16(v: usize) -> int {
    (signed8(v as int % 256) + 65536) % 65536
}

impl CpuModel {
    /// RET when `cond` holds: PC from the stack.
    pub open spec fn ret_if(self, cond: bool) -> (CpuModel, u8) {
        if cond {
            (self.popped().with_pc(self.top()), 20)
        } else {
            (self.advance(1), 8)
        }
    }

    pub open spec fn ret_if_ok(self, cond: bool) -> bool {
        if cond {
            self.pop_ok()
        } else {
            self.pc_fits(1)
        }
    }

    /// JP a16 when `cond` holds.
    pub open spec fn jp_if(self, cond: bool, v: usize) -> (CpuModel, u8) {
        if cond {
            (self.with_pc((v % 65536) as u16), 16)
        } else {
            (self.advance(3), 12)
        }
    }

    /// CALL a16 when `cond` holds: the address of the next instruction is
    /// pushed.
    pub open spec fn call_if(self, cond: bool, v: usize) -> (CpuModel, u8) {
        let s = self.advance(3);
        if cond {
            (s.push(s.regs.pc).with_pc((v % 65536) as u16), 24)
        } else {
            (s, 12)
        }
    }

    pub open spec fn call_if_ok(self, cond: bool) -> bool {
        self.pc_fits(3) && (cond ==> self.advance(3).push_ok(self.advance(3).regs.pc))
    }

    /// RST n: a call of the fixed address `n`.
    pub open spec fn rst(self, n: u16) -> (CpuModel, u8) {
        let s = self.advance(1);
        (s.push(s.regs.pc).with_pc(n), 16)
    }

    pub open spec fn rst_ok(self) -> bool {
        self.pc_fits(1) && self.advance(1).push_ok(self.advance(1).regs.pc)
    }

    /// Whether a CB-prefixed instruction runs.
    #[verifier::opaque]
    pub open spec fn cb_ok(self, op: u8) -> bool {
        let k = (op / 8) as int;
        let t = reg_target((op % 8) as int);
        if k < 8 {
            self.rotate_ok(k, t)
        } else if k < 16 {
            self.bit_ok(t)
        } else if k < 24 {
            self.reset_ok(t, (k - 16) as u8)
        } else {
            self.set_ok(t, (k - 24) as u8)
        }
    }

    /// A CB-prefixed instruction: rotates and shifts (0x00..=0x3F), BIT,
    /// RES and SET (by bit, 0x40..=0xFF), on B, C, D, E, H, L, (HL), A.
    /// Cycles: 8, or 16 at (HL), 12 for BIT at (HL).
    #[verifier::opaque]
    pub open spec fn cb_exec(self, op: u8) -> (CpuModel, u8) {
        let k = (op / 8) as int;
        let i = (op % 8) as int;
        let t = reg_target(i);
        let s = if k < 8 {
            self.rotate(k, t)
        } else if k < 16 {
            self.bit_test(t, (k - 8) as u8)
        } else if k < 24 {
            self.bit_reset(t, (k - 16) as u8)
        } else {
            self.bit_set(t, (k - 24) as u8)
        };
        (s, if i == 6 {
            if 8 <= k < 16 {
                12
            } else {
                16
            }
        } else {
            8
        })
    }

    /// Whether an instruction of the last block (0xC0..=0xFF) runs; 0xD3,
    /// 0xDB, 0xEB, 0xEC and 0xFD are not instructions.
    #[verifier::opaque]
    pub open spec fn high_ok(self, op: u8, v: usize) -> bool {
        let c = op % 16;
        let r = (op / 16 - 12) as int;
        let z = self.regs.f.zero;
        let cy = self.regs.f.carry;
        if c == 0 {
            if r == 0 {
                self.ret_if_ok(!z)
            } else if r == 1 {
                self.ret_if_ok(!cy)
            } else if r == 2 {
                0xFF00 + v as int % 65536 <= 0xFFFF && self.mem.write_ok(
                    (0xFF00 + v as int % 65536) as u16,
                    self.regs.a,
                ) && self.pc_fits(2)
            } else {
                self.mem.read_ok((0xFF00 + v as int % 256) as u16) && self.pc_fits(2)
            }
        } else if c == 1 {
            self.pop_ok() && self.pc_fits(1)
        } else if c == 2 {
            if r == 0 {
                z ==> self.pc_fits(3)
            } else if r == 1 {
                cy ==> self.pc_fits(3)
            } else if r == 2 {
                self.mem.write_ok((0xFF00 + self.regs.c) as u16, self.regs.a) && self.pc_fits(1)
            } else {
                self.mem.read_ok((0xFF00 + self.regs.c) as u16) && self.pc_fits(1)
            }
        } else if c == 3 {
            r != 1 && (r >= 2 ==> self.pc_fits(1))
        } else if c == 4 {
            if r == 0 {
                self.call_if_ok(!z)
            } else if r == 1 {
                self.call_if_ok(!cy)
            } else {
                self.pc_fits(1)
            }
        } else if c == 5 {
            self.push_ok(get16(self.regs, stack_pair(r))) && self.pc_fits(1)
        } else if c == 6 {
            alu_ok(self.regs, 2 * r, v) && self.pc_fits(2)
        } else if c == 7 || c == 15 {
            self.rst_ok()
        } else if c == 8 {
            if r == 0 {
                self.ret_if_ok(z)
            } else if r == 1 {
                self.ret_if_ok(cy)
            } else {
                self.pc_fits(2)
            }
        } else if c == 9 {
            if r <= 1 {
                self.pop_ok()
            } else if r == 2 {
                true
            } else {
                self.pc_fits(1)
            }
        } else if c == 10 {
            if r == 0 {
                !z ==> self.pc_fits(3)
            } else if r == 1 {
                !cy ==> self.pc_fits(3)
            } else if r == 2 {
                self.mem.write_ok((v % 65536) as u16, self.regs.a) && self.pc_fits(3)
            } else {
                self.mem.read_ok((v % 65536) as u16) && self.pc_fits(3)
            }
        } else if c == 11 {
            if r == 0 {
                &&& self.pc_fits(2)
                &&& self.mem.read_ok((self.regs.pc + 1) as u16)
                &&& self.advance(1).cb_ok(self.mem.read((self.regs.pc + 1) as u16))
            } else if r == 3 {
                self.pc_fits(1)
            } else {
                false
            }
        } else if c == 12 {
            if r == 0 {
                self.call_if_ok(z)
            } else if r == 1 {
                self.call_if_ok(cy)
            } else if r == 2 {
                false
            } else {
                self.pc_fits(1)
            }
        } else if c == 13 {
            if r == 0 {
                self.call_if_ok(true)
            } else if r == 3 {
                false
            } else {
                self.pc_fits(1)
            }
        } else {
            alu_ok(self.regs, 2 * r + 1, v) && self.pc_fits(2)
        }
    }

    /// RET NZ, RET NC, LDH (a8),A, LDH A,(a8).
    #[verifier::opaque]
    pub open spec fn high_x0(self, r: int, v: usize) -> (CpuModel, u8) {
        if r == 0 {
            self.ret_if(!self.regs.f.zero)
        } else if r == 1 {
            self.ret_if(!self.regs.f.carry)
        } else if r == 2 {
            (CpuModel {
                mem: self.mem.write((0xFF00 + v as int % 65536) as u16, self.regs.a),
                ..self
            }.advance(2), 12)
        } else {
            (self.with_regs(
                Registers { a: self.mem.read((0xFF00 + v as int % 256) as u16), ..self.regs },
            ).advance(2), 12)
        }
    }

    /// POP BC/DE/HL/AF.
    #[verifier::opaque]
    pub open spec fn high_x1(self, r: int) -> (CpuModel, u8) {
        let p = self.popped();
        (p.with_regs(set16(p.regs, stack_pair(r), self.top())).advance(1), 12)
    }

    /// JP NZ, JP NC, LD (C),A, LD A,(C).
    #[verifier::opaque]
    pub open spec fn high_x2(self, r: int, v: usize) -> (CpuModel, u8) {
        if r == 0 {
            self.jp_if(!self.regs.f.zero, v)
        } else if r == 1 {
            self.jp_if(!self.regs.f.carry, v)
        } else if r == 2 {
            (CpuModel {
                mem: self.mem.write((0xFF00 + self.regs.c) as u16, self.regs.a),
                ..self
            }.advance(1), 8)
        } else {
            (self.with_regs(
                Registers { a: self.mem.read((0xFF00 + self.regs.c) as u16), ..self.regs },
            ).advance(1), 8)
        }
    }

    /// JP a16, (0xD3), NOP at 0xE3, DI.
    #[verifier::opaque]
    pub open spec fn high_x3(self, r: int, v: usize) -> (CpuModel, u8) {
        if r == 0 {
            (self.with_pc((v % 65536) as u16), 16)
        } else if r == 2 {
            (self.advance(1), 4)
        } else if r == 3 {
            (CpuModel { ime_delay: false, ime: false, ..self }.advance(1), 4)
        } else {
            (self, 0)
        }
    }

    /// CALL NZ, CALL NC, NOP at 0xE4 and 0xF4.
    #[verifier::opaque]
    pub open spec fn high_x4(self, r: int, v: usize) -> (CpuModel, u8) {
        if r == 0 {
            self.call_if(!self.regs.f.zero, v)
        } else if r == 1 {
            self.call_if(!self.regs.f.carry, v)
        } else {
            (self.advance(1), 4)
        }
    }

    /// PUSH BC/DE/HL/AF.
    #[verifier::opaque]
    pub open spec fn high_x5(self, r: int) -> (CpuModel, u8) {
        (self.push(get16(self.regs, stack_pair(r))).advance(1), 16)
    }

    /// ADD, SUB, AND, OR with an immediate byte.
    #[verifier::opaque]
    pub open spec fn high_x6(self, r: int, v: usize) -> (CpuModel, u8) {
        (self.with_regs(alu_spec(self.regs, 2 * r, v)).advance(2), 8)
    }

    /// RST 00h/10h/20h/30h (column 7) and 08h/18h/28h/38h (column 15).
    #[verifier::opaque]
    pub open spec fn high_rst(self, r: int, odd: bool) -> (CpuModel, u8) {
        self.rst((r * 0x10 + if odd {
            8int
        } else {
            0
        }) as u16)
    }

    /// RET Z, RET C, ADD SP,r8, LD HL,SP+r8.
    #[verifier::opaque]
    pub open spec fn high_x8(self, r: int, v: usize) -> (CpuModel, u8) {
        if r == 0 {
            self.ret_if(self.regs.f.zero)
        } else if r == 1 {
            self.ret_if(self.regs.f.carry)
        } else if r == 2 {
            (self.with_regs(add_spec(self.regs, Target::SP, sext16(v) as usize)).advance(2), 16)
        } else {
            (self.with_regs(hl_sp_spec(self.regs, v)).advance(2), 12)
        }
    }

    /// RET, RETI, JP (HL), LD SP,HL.
    #[verifier::opaque]
    pub open spec fn high_x9(self, r: int) -> (CpuModel, u8) {
        if r == 0 {
            (self.popped().with_pc(self.top()), 16)
        } else if r == 1 {
            (CpuModel { ime: true, ..self }.popped().with_pc(self.top()), 16)
        } else if r == 2 {
            (self.with_pc(self.hl()), 4)
        } else {
            (self.with_regs(Registers { sp: self.hl(), ..self.regs }).advance(1), 8)
        }
    }

    /// JP Z, JP C, LD (a16),A, LD A,(a16).
    #[verifier::opaque]
    pub open spec fn high_xa(self, r: int, v: usize) -> (CpuModel, u8) {
        if r == 0 {
            self.jp_if(self.regs.f.zero, v)
        } else if r == 1 {
            self.jp_if(self.regs.f.carry, v)
        } else if r == 2 {
            (CpuModel { mem: self.mem.write((v % 65536) as u16, self.regs.a), ..self }.advance(
                3,
            ), 16)
        } else {
            (self.with_regs(
                Registers { a: self.mem.read((v % 65536) as u16), ..self.regs },
            ).advance(3), 16)
        }
    }

    /// The CB prefix, (0xDB), (0xEB), EI.
    #[verifier::opaque]
    pub open spec fn high_xb(self, r: int) -> (CpuModel, u8) {
        if r == 0 {
            let s = self.advance(1);
            let (s2, c) = s.cb_exec(s.mem.read(s.regs.pc));
            (s2.advance(1), c)
        } else if r == 3 {
            (CpuModel { ime_delay: true, ..self }.advance(1), 4)
        } else {
            (self, 0)
        }
    }

    /// CALL Z, CALL C, (0xEC), NOP at 0xFC.
    #[verifier::opaque]
    pub open spec fn high_xc(self, r: int, v: usize) -> (CpuModel, u8) {
        if r == 0 {
            self.call_if(self.regs.f.zero, v)
        } else if r == 1 {
            self.call_if(self.regs.f.carry, v)
        } else if r == 3 {
            (self.advance(1), 4)
        } else {
            (self, 0)
        }
    }

    /// CALL a16, NOP at 0xDD and 0xED, (0xFD).
    #[verifier::opaque]
    pub open spec fn high_xd(self, r: int, v: usize) -> (CpuModel, u8) {
        if r == 0 {
            self.call_if(true, v)
        } else if r == 3 {
            (self, 0)
        } else {
            (self.advance(1), 4)
        }
    }

    /// ADC, SBC, XOR, CP with an immediate byte.
    #[verifier::opaque]
    pub open spec fn high_xe(self, r: int, v: usize) -> (CpuModel, u8) {
        (self.with_regs(alu_spec(self.regs, 2 * r + 1, v)).advance(2), 8)
    }

    /// An instruction of the last block (0xC0..=0xFF), by column.
    pub open spec fn high(self, op: u8, v: usize) -> (CpuModel, u8) {
        let c = op % 16;
        let r = (op / 16 - 12) as int;
        if c == 0 {
            self.high_x0(r, v)
        } else if c == 1 {
            self.high_x1(r)
        } else if c == 2 {
            self.high_x2(r, v)
        } else if c == 3 {
            self.high_x3(r, v)
        } else if c == 4 {
            self.high_x4(r, v)
        } else if c == 5 {
            self.high_x5(r)
        } else if c == 6 {
            self.high_x6(r, v)
        } else if c == 7 {
            self.high_rst(r, false)
        } else if c == 8 {
            self.high_x8(r, v)
        } else if c == 9 {
            self.high_x9(r)
        } else if c == 10 {
            self.high_xa(r, v)
        } else if c == 11 {
            self.high_xb(r)
        } else if c == 12 {
            self.high_xc(r, v)
        } else if c == 13 {
            self.high_xd(r, v)
        } else if c == 14 {
            self.high_xe(r, v)
        } else {
            self.high_rst(r, true)
        }
    }

    /// Whether executing `op` with operand `v` runs without stopping the
    /// machine.
    pub open spec fn exec_ok(self, op: u8, v: usize) -> bool {
        if op < 0x40 {
            self.low_ok(op, v)
        } else if op < 0x80 {
            self.ld_block_ok(op)
        } else if op < 0xC0 {
            self.alu_block_ok(op)
        } else {
            self.high_ok(op, v)
        }
    }

    /// The state after executing `op` with operand `v` (the immediate byte
    /// or word), and the clocks it takes.
    pub open spec fn exec(self, op: u8, v: usize) -> (CpuModel, u8) {
        if op < 0x40 {
            self.low(op, v)
        } else if op < 0x80 {
            self.ld_block(op)
        } else if op < 0xC0 {
            self.alu_block(op)
        } else {
            self.high(op, v)
        }
    }
}

//cb impl
impl CPU {
    /// Executes the CB-prefixed instruction `opcode`; returns its clocks.
    #[allow(unused_variables)]
    #[verifier::rlimit(40)]
    pub fn execute_cb(&mut self, opcode: u8, v: usize) -> (r: u8)
        requires
            old(self)@.wf(),
            old(self)@.cb_ok(opcode),
        ensures
            (final(self)@, r) == old(self)@.cb_exec(opcode),
            final(self)@.wf(),
            final(self).registers.pc == old(self).registers.pc,
            r >= 8,
            final(self).delay == old(self).delay,
    {
        reveal(CpuModel::cb_ok);
        reveal(CpuModel::cb_exec);
        let t = reg_target_of(opcode % 8);
        let k = opcode / 8;
        if k < 8 {
            match k {
                0 => self.rlc(t),
                1 => self.rrc(t),
                2 => self.rl(t),
                3 => self.rr(t),
                4 => self.sla(t),
                5 => self.sra(t),
                6 => self.swap(t),
                _ => self.srl(t),
            }
        } else if k < 16 {
            self.bit(t, k - 8);
        } else if k < 24 {
            self.reset(t, k - 16);
        } else {
            self.set(t, k - 24);
        }
        if opcode % 8 == 6 {
            if 8 <= k && k < 16 {
                12
            } else {
                16
            }
        } else {
            8
        }
    }
}

/// The low byte of `v` sign-extended to 16 bits.
fn sign_extend(v: usize) -> (y: u16)
    ensures
        y as int == sext16(v),
{
    let b = (v % 256) as u16;
    if b >= 128 {
        b + 0xFF00
    } else {
        b
    }
}

impl CPU {
    fn ret_if(&mut self, cond: bool) -> (c: u8)
        requires
            old(self)@.wf(),
            old(self)@.ret_if_ok(cond),
        ensures
            (final(self)@, c) == old(self)@.ret_if(cond),
    {
        if cond {
            self.registers.pc = self.pop16();
            20
        } else {
            self.registers.pc += 1;
            8
        }
    }

    fn jp_if(&mut self, cond: bool, v: usize) -> (c: u8)
        requires
            !cond ==> old(self)@.pc_fits(3),
        ensures
            (final(self)@, c) == old(self)@.jp_if(cond, v),
    {
        if cond {
            self.registers.pc = (v % 65536) as u16;
            16
        } else {
            self.registers.pc += 3;
            12
        }
    }

    fn call_if(&mut self, cond: bool, v: usize) -> (c: u8)
        requires
            old(self)@.wf(),
            old(self)@.call_if_ok(cond),
        ensures
            (final(self)@, c) == old(self)@.call_if(cond, v),
            final(self)@.wf(),
    {
        self.registers.pc += 3;
        if cond {
            self.push16(self.registers.pc);
            self.registers.pc = (v % 65536) as u16;
            24
        } else {
            12
        }
    }

    fn rst(&mut self, n: u16) -> (c: u8)
        requires
            old(self)@.wf(),
            old(self)@.rst_ok(),
        ensures
            (final(self)@, c) == old(self)@.rst(n),
            final(self)@.wf(),
    {
        self.registers.pc += 1;
        self.push16(self.registers.pc);
        self.registers.pc = n;
        16
    }

    fn high_x0(&mut self, op: u8, v: usize) -> (c: u8)
        requires
            old(self)@.wf(),
            0xC0 <= op,
            op % 16 == 0,
            old(self)@.high_ok(op, v),
        ensures
            (final(self)@, c) == old(self)@.high_x0((op / 16 - 12) as int, v),
            final(self)@.wf(),
            c >= 4,
            final(self).delay == old(self).delay,
    {
        reveal(CpuModel::high_ok);
        reveal(CpuModel::high_x0);
        let r = op / 16 - 12;
        if r == 0 {
            let z = self.registers.get_zero();
            self.ret_if(!z)
        } else if r == 1 {
            let cy = self.registers.get_carry();
            self.ret_if(!cy)
        } else if r == 2 {
            self.memory.wb(0xFF00 + (v % 65536) as u16, self.registers.a);
            self.registers.pc += 2;
            12
        } else {
            let mem_loc = 0xFF00 + (v % 256) as u16;
            let val = self.memory.rb(mem_loc);
            self.registers.a = val;
            self.registers.pc += 2;
            12
        }
    }

    fn high_x1(&mut self, op: u8, v: usize) -> (c: u8)
        requires
            old(self)@.wf(),
            0xC0 <= op,
            op % 16 == 1,
            old(self)@.high_ok(op, v),
        ensures
            (final(self)@, c) == old(self)@.high_x1((op / 16 - 12) as int),
            final(self)@.wf(),
            c >= 4,
            final(self).delay == old(self).delay,
    {
        reveal(CpuModel::high_ok);
        reveal(CpuModel::high_x1);
        let w = self.pop16();
        write16(&mut self.registers, stack_pair_of(op / 16 - 12), w);
        self.registers.pc += 1;
        12
    }

    fn high_x2(&mut self, op: u8, v: usize) -> (c: u8)
        requires
            old(self)@.wf(),
            0xC0 <= op,
            op % 16 == 2,
            old(self)@.high_ok(op, v),
        ensures
            (final(self)@, c) == old(self)@.high_x2((op / 16 - 12) as int, v),
            final(self)@.wf(),
            c >= 4,
            final(self).delay == old(self).delay,
    {
        reveal(CpuModel::high_ok);
        reveal(CpuModel::high_x2);
        let r = op / 16 - 12;
        if r == 0 {
            let z = self.registers.get_zero();
            self.jp_if(!z, v)
        } else if r == 1 {
            let cy = self.registers.get_carry();
            self.jp_if(!cy, v)
        } else if r == 2 {
            self.memory.wb(0xFF00 + (self.registers.c as u16), self.registers.a);
            self.registers.pc += 1;
            8
        } else {
            let val = self.memory.rb(0xFF00 + (self.registers.c as u16));
            self.registers.a = val;
            self.registers.pc += 1;
            8
        }
    }

    fn high_x3(&mut self, op: u8, v: usize) -> (c: u8)
        requires
            old(self)@.wf(),
            0xC0 <= op,
            op % 16 == 3,
            old(self)@.high_ok(op, v),
        ensures
            (final(self)@, c) == old(self)@.high_x3((op / 16 - 12) as int, v),
            final(self)@.wf(),
            c >= 4,
            final(self).delay == old(self).delay,
    {
        reveal(CpuModel::high_ok);
        reveal(CpuModel::high_x3);
        let r = op / 16 - 12;
        if r == 0 {
            self.registers.pc = (v % 65536) as u16;
            16
        } else if r == 2 {
            self.registers.pc += 1;
            4
        } else {
            self.ime_delay = false;
            self.ime = false;
            self.registers.pc += 1;
            4
        }
    }

    fn high_x4(&mut self, op: u8, v: usize) -> (c: u8)
        requires
            old(self)@.wf(),
            0xC0 <= op,
            op % 16 == 4,
            old(self)@.high_ok(op, v),
        ensures
            (final(self)@, c) == old(self)@.high_x4((op / 16 - 12) as int, v),
            final(self)@.wf(),
            c >= 4,
            final(self).delay == old(self).delay,
    {
        reveal(CpuModel::high_ok);
        reveal(CpuModel::high_x4);
        let r = op / 16 - 12;
        if r == 0 {
            let z = self.registers.get_zero();
            self.call_if(!z, v)
        } else if r == 1 {
            let cy = self.registers.get_carry();
            self.call_if(!cy, v)
        } else {
            self.registers.pc += 1;
            4
        }
    }

    fn high_x5(&mut self, op: u8, v: usize) -> (c: u8)
        requires
            old(self)@.wf(),
            0xC0 <= op,
            op % 16 == 5,
            old(self)@.high_ok(op, v),
        ensures
            (final(self)@, c) == old(self)@.high_x5((op / 16 - 12) as int),
            final(self)@.wf(),
            c >= 4,
            final(self).delay == old(self).delay,
    {
        reveal(CpuModel::high_ok);
        reveal(CpuModel::high_x5);
        let r = op / 16 - 12;
        let w = if r == 3 {
            self.registers.get_af()
        } else {
            read16(&self.registers, stack_pair_of(r))
        };
        self.push16(w);
        self.registers.pc += 1;
        16
    }

    fn high_x6(&mut self, op: u8, v: usize) -> (c: u8)
        requires
            old(self)@.wf(),
            0xC0 <= op,
            op % 16 == 6,
            old(self)@.high_ok(op, v),
        ensures
            (final(self)@, c) == old(self)@.high_x6((op / 16 - 12) as int, v),
            final(self)@.wf(),
            c >= 4,
            final(self).delay == old(self).delay,
    {
        reveal(CpuModel::high_ok);
        reveal(CpuModel::high_x6);
        self.alu(2 * (op / 16 - 12), v);
        self.registers.pc += 2;
        8
    }

    fn high_rst(&mut self, op: u8, v: usize) -> (c: u8)
        requires
            old(self)@.wf(),
            0xC0 <= op,
            op % 16 == 7 || op % 16 == 15,
            old(self)@.high_ok(op, v),
        ensures
            (final(self)@, c) == old(self)@.high_rst((op / 16 - 12) as int, op % 16 == 15),
            final(self)@.wf(),
            c >= 4,
            final(self).delay == old(self).delay,
    {
        reveal(CpuModel::high_ok);
        reveal(CpuModel::high_rst);
        let n = ((op / 16 - 12) as u16) * 0x10 + if op % 16 == 15 {
            8
        } else {
            0
        };
        self.rst(n)
    }

    #[verifier::rlimit(30)]
    fn high_x8(&mut self, op: u8, v: usize) -> (c: u8)
        requires
            old(self)@.wf(),
            0xC0 <= op,
            op % 16 == 8,
            old(self)@.high_ok(op, v),
        ensures
            (final(self)@, c) == old(self)@.high_x8((op / 16 - 12) as int, v),
            final(self)@.wf(),
            c >= 4,
            final(self).delay == old(self).delay,
    {
        reveal(CpuModel::high_ok);
        reveal(CpuModel::high_x8);
        let r = op / 16 - 12;
        if r == 0 {
            let z = self.registers.get_zero();
            self.ret_if(z)
        } else if r == 1 {
            let cy = self.registers.get_carry();
            self.ret_if(cy)
        } else if r == 2 {
            let y = sign_extend(v);
            self.add(Target::SP, y as usize);
            self.registers.pc += 2;
            16
        } else {
            self.ld_hl_sp(v);
            self.registers.pc += 2;
            12
        }
    }

    fn ld_hl_sp(&mut self, v: usize)
        ensures
            final(self)@ == old(self)@.with_regs(hl_sp_spec(old(self).registers, v)),
    {
        let b = (v % 256) as u16;
        let y = sign_extend(v);
        let sp = self.registers.sp;
        let new_value = sp.wrapping_add(y);
        self.registers.f = Flags {
            zero: false,
            sub: false,
            half: sp % 16 + b % 16 > 15,
            carry: sp % 256 + b > 255,
        };
        self.registers.set_hl(new_value);
    }

    fn high_x9(&mut self, op: u8, v: usize) -> (c: u8)
        requires
            old(self)@.wf(),
            0xC0 <= op,
            op % 16 == 9,
            old(self)@.high_ok(op, v),
        ensures
            (final(self)@, c) == old(self)@.high_x9((op / 16 - 12) as int),
            final(self)@.wf(),
            c >= 4,
            final(self).delay == old(self).delay,
    {
        reveal(CpuModel::high_ok);
        reveal(CpuModel::high_x9);
        let r = op / 16 - 12;
        if r <= 1 {
            if r == 1 {
                self.ime = true;
            }
            self.registers.pc = self.pop16();
            16
        } else if r == 2 {
            self.registers.pc = self.registers.get_hl();
            4
        } else {
            self.registers.sp = self.registers.get_hl();
            self.registers.pc += 1;
            8
        }
    }

    fn high_xa(&mut self, op: u8, v: usize) -> (c: u8)
        requires
            old(self)@.wf(),
            0xC0 <= op,
            op % 16 == 10,
            old(self)@.high_ok(op, v),
        ensures
            (final(self)@, c) == old(self)@.high_xa((op / 16 - 12) as int, v),
            final(self)@.wf(),
            c >= 4,
            final(self).delay == old(self).delay,
    {
        reveal(CpuModel::high_ok);
        reveal(CpuModel::high_xa);
        let r = op / 16 - 12;
        if r == 0 {
            let z = self.registers.get_zero();
            self.jp_if(z, v)
        } else if r == 1 {
            let cy = self.registers.get_carry();
            self.jp_if(cy, v)
        } else if r == 2 {
            self.memory.wb((v % 65536) as u16, self.registers.a);
            self.registers.pc += 3;
            16
        } else {
            let val = self.memory.rb((v % 65536) as u16);
            self.registers.a = val;
            self.registers.pc += 3;
            16
        }
    }

    fn high_xb(&mut self, op: u8, v: usize) -> (c: u8)
        requires
            old(self)@.wf(),
            0xC0 <= op,
            op % 16 == 11,
            old(self)@.high_ok(op, v),
        ensures
            (final(self)@, c) == old(self)@.high_xb((op / 16 - 12) as int),
            final(self)@.wf(),
            c >= 4,
            final(self).delay == old(self).delay,
    {
        reveal(CpuModel::high_ok);
        reveal(CpuModel::high_xb);
        let r = op / 16 - 12;
        if r == 0 {
            self.registers.pc += 1;
            let val = self.memory.rb(self.registers.pc);
            let delay = self.execute_cb(val, v);
            self.registers.pc += 1;
            delay
        } else {
            self.ime_delay = true;
            self.registers.pc += 1;
            4
        }
    }

    fn high_xc(&mut self, op: u8, v: usize) -> (c: u8)
        requires
            old(self)@.wf(),
            0xC0 <= op,
            op % 16 == 12,
            old(self)@.high_ok(op, v),
        ensures
            (final(self)@, c) == old(self)@.high_xc((op / 16 - 12) as int, v),
            final(self)@.wf(),
            c >= 4,
            final(self).delay == old(self).delay,
    {
        reveal(CpuModel::high_ok);
        reveal(CpuModel::high_xc);
        let r = op / 16 - 12;
        if r == 0 {
            let z = self.registers.get_zero();
            self.call_if(z, v)
        } else if r == 1 {
            let cy = self.registers.get_carry();
            self.call_if(cy, v)
        } else {
            self.registers.pc += 1;
            4
        }
    }

    fn high_xd(&mut self, op: u8, v: usize) -> (c: u8)
        requires
            old(self)@.wf(),
            0xC0 <= op,
            op % 16 == 13,
            old(self)@.high_ok(op, v),
        ensures
            (final(self)@, c) == old(self)@.high_xd((op / 16 - 12) as int, v),
            final(self)@.wf(),
            c >= 4,
            final(self).delay == old(self).delay,
    {
        reveal(CpuModel::high_ok);
        reveal(CpuModel::high_xd);
        let r = op / 16 - 12;
        if r == 0 {
            self.call_if(true, v)
        } else {
            self.registers.pc += 1;
            4
        }
    }

    fn high_xe(&mut self, op: u8, v: usize) -> (c: u8)
        requires
            old(self)@.wf(),
            0xC0 <= op,
            op % 16 == 14,
            old(self)@.high_ok(op, v),
        ensures
            (final(self)@, c) == old(self)@.high_xe((op / 16 - 12) as int, v),
            final(self)@.wf(),
            c >= 4,
            final(self).delay == old(self).delay,
    {
        reveal(CpuModel::high_ok);
        reveal(CpuModel::high_xe);
        self.alu(2 * (op / 16 - 12) + 1, v);
        self.registers.pc += 2;
        8
    }
}

//opcodes
impl CPU {
    /// Executes the instruction `opcode` with its immediate operand `v` (the
    /// byte, or the little-endian word, after the opcode); returns the clocks
    /// it takes.
    pub fn execute(&mut self, opcode: u8, v: usize) -> (r: u8)
        requires
            old(self)@.wf(),
            old(self)@.exec_ok(opcode, v),
        ensures
            (final(self)@, r) == old(self)@.exec(opcode, v),
            final(self)@.wf(),
            r >= 4,
            final(self).delay == old(self).delay,
    {
        if opcode < 0x40 {
            match opcode % 16 {
                0 => self.low_x0(opcode, v),
                1 => self.low_x1(opcode, v),
                2 => self.low_x2(opcode, v),
                3 => self.low_x3(opcode, v),
                4 => self.low_x4(opcode, v),
                5 => self.low_x5(opcode, v),
                6 => self.low_x6(opcode, v),
                7 => self.low_x7(opcode, v),
                8 => self.low_x8(opcode, v),
                9 => self.low_x9(opcode, v),
                10 => self.low_xa(opcode, v),
                11 => self.low_xb(opcode, v),
                12 => self.low_xc(opcode, v),
                13 => self.low_xd(opcode, v),
                14 => self.low_xe(opcode, v),
                _ => self.low_xf(opcode, v),
            }
        } else if opcode < 0x80 {
            self.ld_block(opcode)
        } else if opcode < 0xC0 {
            self.alu_block(opcode)
        } else {
            match opcode % 16 {
                0 => self.high_x0(opcode, v),
                1 => self.high_x1(opcode, v),
                2 => self.high_x2(opcode, v),
                3 => self.high_x3(opcode, v),
                4 => self.high_x4(opcode, v),
                5 => self.high_x5(opcode, v),
                6 => self.high_x6(opcode, v),
                8 => self.high_x8(opcode, v),
                9 => self.high_x9(opcode, v),
                10 => self.high_xa(opcode, v),
                11 => self.high_xb(opcode, v),
                12 => self.high_xc(opcode, v),
                13 => self.high_xd(opcode, v),
                14 => self.high_xe(opcode, v),
                _ => self.high_rst(opcode, v),
            }
        }
    }
}

/// Bytes that each opcode takes with its immediate operand, as the fetch
/// reads them: 1, 2 or 3 (0 for the bytes that are no instruction or take
/// no operand bytes there: 0xD3, 0xDB, 0xDD, 0xE3, 0xE4, 0xEB, 0xEC, 0xED,
/// 0xF4, 0xFC, 0xFD).
pub open spec fn opcode_len(op: u8) -> int {
    let c = op % 16;
    let r = op / 16;
    if r < 4 {
        if c == 1 {
            3
        } else if c == 6 || c == 14 {
            2
        } else if c == 0 {
            if r == 0 {
                1
            } else {
                2
            }
        } else if c == 8 {
            if r == 0 {
                3
            } else {
                2
            }
        } else {
            1
        }
    } else if r < 12 {
        1
    } else if c == 0 || c == 8 {
        if r <= 13 {
            1
        } else {
            2
        }
    } else if c == 2 {
        if r <= 13 {
            3
        } else {
            1
        }
    } else if c == 3 {
        if r == 12 {
            3
        } else if r == 15 {
            1
        } else {
            0
        }
    } else if c == 4 || c == 12 {
        if r <= 13 {
            3
        } else {
            0
        }
    } else if c == 6 || c == 14 {
        2
    } else if c == 10 {
        3
    } else if c == 11 {
        if r == 12 || r == 15 {
            1
        } else {
            0
        }
    } else if c == 13 {
        if r == 12 {
            3
        } else {
            0
        }
    } else {
        1
    }
}

fn opcode_length(op: u8) -> (n: u8)
    ensures
        n as int == opcode_len(op),
{
    let c = op % 16;
    let r = op / 16;
    if r < 4 {
        if c == 1 {
            3
        } else if c == 6 || c == 14 {
            2
        } else if c == 0 {
            if r == 0 {
                1
            } else {
                2
            }
        } else if c == 8 {
            if r == 0 {
                3
            } else {
                2
            }
        } else {
            1
        }
    } else if r < 12 {
        1
    } else if c == 0 || c == 8 {
        if r <= 13 {
            1
        } else {
            2
        }
    } else if c == 2 {
        if r <= 13 {
            3
        } else {
            1
        }
    } else if c == 3 {
        if r == 12 {
            3
        } else if r == 15 {
            1
        } else {
            0
        }
    } else if c == 4 || c == 12 {
        if r <= 13 {
            3
        } else {
            0
        }
    } else if c == 6 || c == 14 {
        2
    } else if c == 10 {
        3
    } else if c == 11 {
        if r == 12 || r == 15 {
            1
        } else {
            0
        }
    } else if c == 13 {
        if r == 12 {
            3
        } else {
            0
        }
    } else {
        1
    }
}

/// The lowest of the five interrupt bits set in `p` (5 when none is).
pub open spec fn irq_index(p: u8) -> int {
    if p & 0x01 != 0 {
        0
    } else if p & 0x02 != 0 {
        1
    } else if p & 0x04 != 0 {
        2
    } else if p & 0x08 != 0 {
        3
    } else if p & 0x10 != 0 {
        4
    } else {
        5
    }
}

fn irq_index_of(p: u8) -> (b: u8)
    ensures
        b as int == irq_index(p),
{
    if p & 0x01 != 0 {
        0
    } else if p & 0x02 != 0 {
        1
    } else if p & 0x04 != 0 {
        2
    } else if p & 0x08 != 0 {
        3
    } else if p & 0x10 != 0 {
        4
    } else {
        5
    }
}

/// Machine cycles left in the frame at `delay`.
pub open spec fn frame_left(delay: u32) -> nat {
    if delay >= 69905 {
        0
    } else {
        (69905 - delay) as nat
    }
}

impl CpuModel {
    /// The interrupts both requested (IF) and enabled (IE).
    pub open spec fn pending(self) -> u8 {
        self.mem.read(0xFF0F) & self.mem.read(0xFFFF)
    }

    /// Interrupt `b` taken: its IF bit cleared, IME and HALT cleared.
    pub open spec fn dispatched(self, b: int) -> CpuModel {
        CpuModel {
            mem: self.mem.write(0xFF0F, self.mem.read(0xFF0F) & !(1u8 << (b as u8))),
            ime: false,
            halted: false,
            ..self
        }
    }

    pub open spec fn interrupts_ok(self) -> bool {
        let p = self.pending();
        (p != 0 && self.ime && irq_index(p) < 5) ==> self.dispatched(irq_index(p)).push_ok(
            self.regs.pc,
        )
    }

    /// Interrupt dispatch: any pending interrupt ends HALT; with IME set the
    /// lowest pending one is taken, PC pushed and the jump made to
    /// 0x40 + 8 * bit.
    pub open spec fn interrupts(self) -> CpuModel {
        let p = self.pending();
        if p == 0 {
            self
        } else if !self.ime || irq_index(p) >= 5 {
            CpuModel { halted: false, ..self }
        } else {
            let b = irq_index(p);
            self.dispatched(b).push(self.regs.pc).with_pc((0x40 + 8 * b) as u16)
        }
    }

    /// Whether the opcode at PC and its operand bytes can be read.
    pub open spec fn fetch_ok(self) -> bool {
        let pc = self.regs.pc;
        let op = self.mem.read(pc);
        let n = opcode_len(op);
        &&& self.mem.read_ok(pc)
        &&& ((n == 2 || op == 0xCB) ==> pc + 1 <= 0xFFFF && self.mem.read_ok((pc + 1) as u16))
        &&& (n == 3 ==> pc + 2 <= 0xFFFF && self.mem.read_ok((pc + 2) as u16) && self.mem.read_ok(
            (pc + 1) as u16,
        ))
    }

    /// The immediate operand after the opcode at PC: a byte, or a
    /// little-endian word.
    pub open spec fn operand_word(self) -> usize {
        let pc = self.regs.pc;
        let n = opcode_len(self.mem.read(pc));
        if n == 2 {
            self.mem.read((pc + 1) as u16) as usize
        } else if n == 3 {
            (self.mem.read((pc + 2) as u16) * 256 + self.mem.read((pc + 1) as u16)) as usize
        } else {
            0
        }
    }

    /// The state after the interrupt check, with PC noted for diagnostics
    /// and a pending EI taking effect.
    pub open spec fn after_interrupts(self) -> CpuModel {
        let s1 = self.interrupts();
        let s2 = CpuModel { mem: s1.mem.with_pc(s1.regs.pc), ..s1 };
        if s2.ime_delay {
            CpuModel { ime_delay: false, ime: true, ..s2 }
        } else {
            s2
        }
    }

    /// `d` machine cycles accounted: the GPU runs `d` clocks, then the
    /// timer four per cycle, and their interrupts are latched.
    pub open spec fn finish(self, d: u32) -> (CpuModel, bool) {
        let s = CpuModel { delay: (self.delay + d) as u32, mem: self.mem.gpu_cycled(d), ..self };
        if !s.mem.timer_fits(d) {
            (s, false)
        } else {
            (CpuModel { mem: s.mem.timer_cycled(d), ..s }, true)
        }
    }

    /// One pass of the frame loop: interrupts, then an instruction (or one
    /// cycle of HALT), then the GPU and timer. Gives the state reached and
    /// whether the pass completed; a pass that would stop the machine stops
    /// just before the step that would.
    pub open spec fn iteration(self) -> (CpuModel, bool) {
        if !self.interrupts_ok() {
            (self, false)
        } else {
            let s = self.after_interrupts();
            if s.halted {
                s.finish(1)
            } else {
                let (s5, ok, d) = s.run_op();
                if !ok {
                    (s5, false)
                } else {
                    s5.finish(d)
                }
            }
        }
    }

    /// Fetching and executing the instruction at PC (the boot ROM unmapped
    /// on reaching 0x100): the state reached, whether it completed, and the
    /// machine cycles it took.
    pub open spec fn run_op(self) -> (CpuModel, bool, u32) {
        if !self.fetch_ok() {
            (self, false, 0)
        } else {
            let op = self.mem.read(self.regs.pc);
            let v = self.operand_word();
            let s4 = if self.regs.pc == 0x100 {
                CpuModel { mem: self.mem.boot_done(), ..self }
            } else {
                self
            };
            if !s4.exec_ok(op, v) {
                (s4, false, 0)
            } else {
                let (s5, c) = s4.exec(op, v);
                (s5, true, (c / 4) as u32)
            }
        }
    }

    /// Passes of the frame loop until 69905 machine cycles have run or a
    /// pass stops.
    pub open spec fn run_frame(self) -> (CpuModel, bool)
        decreases frame_left(self.delay),
    {
        if self.delay >= 69905 {
            (self, true)
        } else {
            let (n, ok) = self.iteration();
            if !ok {
                (n, false)
            } else if n.delay <= self.delay {
                (n, true)
            } else {
                n.run_frame()
            }
        }
    }

    /// A frame starts with the cycle count and the trace cleared.
    pub open spec fn frame_start(self) -> CpuModel {
        CpuModel { delay: 0, trace: Seq::empty(), ..self }
    }
}

proof fn lemma_cb_ok_pc(s: CpuModel, op: u8)
    ensures
        s.advance(1).cb_ok(op) == s.cb_ok(op),
{
    reveal(CpuModel::cb_ok);
}

impl CPU {
    /// Whether a push of `val` goes ahead.
    fn can_push(&self, val: u16) -> (r: bool)
        requires
            self@.wf(),
        ensures
            r == self@.push_ok(val),
    {
        let a1 = self.registers.sp.wrapping_sub(1);
        let a2 = self.registers.sp.wrapping_sub(2);
        if !self.memory.can_write(a1, (val / 256) as u8) {
            return false;
        }
        proof {
            lemma_write_ok_frame(self@.mem, a1, (val / 256) as u8, a2, (val % 256) as u8);
        }
        self.memory.can_write(a2, (val % 256) as u8)
    }

    fn can_pop(&self) -> (r: bool)
        requires
            self@.wf(),
        ensures
            r == self@.pop_ok(),
    {
        self.memory.can_read(self.registers.sp.wrapping_add(1)) && self.memory.can_read(
            self.registers.sp,
        )
    }

    fn pc_fits(&self, n: u16) -> (r: bool)
        ensures
            r == self@.pc_fits(n as int),
    {
        self.registers.pc <= 0xFFFF - n
    }

    fn can_ret_if(&self, cond: bool) -> (r: bool)
        requires
            self@.wf(),
        ensures
            r == self@.ret_if_ok(cond),
    {
        if cond {
            self.can_pop()
        } else {
            self.pc_fits(1)
        }
    }

    fn can_call_if(&self, cond: bool) -> (r: bool)
        requires
            self@.wf(),
        ensures
            r == self@.call_if_ok(cond),
    {
        if !self.pc_fits(3) {
            return false;
        }
        !cond || self.can_push(self.registers.pc + 3)
    }

    fn can_rst(&self) -> (r: bool)
        requires
            self@.wf(),
        ensures
            r == self@.rst_ok(),
    {
        self.pc_fits(1) && self.can_push(self.registers.pc + 1)
    }

    fn alu_fits(&self, k: u8, v: usize) -> (r: bool)
        ensures
            r == alu_ok(self.registers, k as int, v),
    {
        let c: u32 = if self.registers.f.carry {
            1
        } else {
            0
        };
        let w = (v % 65536) as u32;
        if k == 1 {
            self.registers.a as u32 + w + c <= 0xFFFF
        } else if k == 3 {
            let vs: i32 = if w >= 32768 {
                w as i32 - 65536
            } else {
                w as i32
            };
            vs + c as i32 <= 32767
        } else {
            true
        }
    }

    /// The byte a CB rotate or shift makes of `x`.
    fn cb_value(k: u8, x: u8, f: Flags) -> (y: u8)
        requires
            k < 8,
        ensures
            y == cb_rot(k as int, x, f).0,
    {
        let c: u8 = if f.carry {
            1
        } else {
            0
        };
        match k {
            0 => (x % 128) * 2 + x / 128,
            1 => x / 2 + (x % 2) * 128,
            2 => (x % 128) * 2 + c,
            3 => x / 2 + c * 128,
            4 => (x % 128) * 2,
            5 => x / 2 + (x / 128) * 128,
            6 => x / 16 + (x % 16) * 16,
            _ => x / 2,
        }
    }

    fn can_cb(&mut self, op: u8) -> (r: bool)
        requires
            old(self)@.wf(),
        ensures
            r == old(self)@.cb_ok(op),
            final(self)@ == old(self)@,
    {
        reveal(CpuModel::cb_ok);
        if op % 8 != 6 {
            return true;
        }
        let hl = self.registers.get_hl();
        if !self.memory.can_read(hl) {
            return false;
        }
        let x = self.memory.rb(hl);
        let k = op / 8;
        if 8 <= k && k < 16 {
            return true;
        }
        let y = if k < 8 {
            CPU::cb_value(k, x, self.registers.f)
        } else if k < 24 {
            x & !(1u8 << (k - 16))
        } else {
            x | (1u8 << (k - 24))
        };
        self.memory.can_write(hl, y)
    }

    fn can_low(&mut self, op: u8, v: usize) -> (r: bool)
        requires
            old(self)@.wf(),
            op < 0x40,
        ensures
            r == old(self)@.low_ok(op, v),
            final(self)@ == old(self)@,
    {
        reveal(CpuModel::low_ok);
        let c = op % 16;
        let r = op / 16;
        let hl = self.registers.get_hl();
        if c == 0 {
            self.pc_fits(if r == 0 {
                1
            } else {
                2
            })
        } else if c == 1 {
            self.pc_fits(3)
        } else if c == 2 {
            let addr = self.indirect_addr(r);
            self.memory.can_write(addr, self.registers.a) && self.pc_fits(1)
        } else if (c == 4 || c == 5) && r == 3 {
            if !self.memory.can_read(hl) {
                return false;
            }
            let x = self.memory.rb(hl);
            let y = if c == 4 {
                x.wrapping_add(1)
            } else {
                x.wrapping_sub(1)
            };
            self.memory.can_write(hl, y) && self.pc_fits(1)
        } else if c == 6 {
            (r != 3 || self.memory.can_write(hl, (v % 256) as u8)) && self.pc_fits(2)
        } else if c == 8 {
            if r == 0 {
                if v == usize::MAX {
                    return false;
                }
                let a1 = (v % 65536) as u16;
                let a2 = ((v + 1) % 65536) as u16;
                let sp = self.registers.sp;
                if !self.memory.can_write(a1, (sp % 256) as u8) {
                    return false;
                }
                proof {
                    lemma_write_ok_frame(self@.mem, a1, (sp % 256) as u8, a2, (sp / 256) as u8);
                }
                self.memory.can_write(a2, (sp / 256) as u8) && self.pc_fits(3)
            } else {
                self.pc_fits(2)
            }
        } else if c == 10 {
            let addr = self.indirect_addr(r);
            self.memory.can_read(addr) && self.pc_fits(1)
        } else if c == 14 {
            self.pc_fits(2)
        } else {
            self.pc_fits(1)
        }
    }

    #[verifier::rlimit(40)]
    fn can_high(&mut self, op: u8, v: usize) -> (r: bool)
        requires
            old(self)@.wf(),
            op >= 0xC0,
        ensures
            r == old(self)@.high_ok(op, v),
            final(self)@ == old(self)@,
    {
        reveal(CpuModel::high_ok);
        let c = op % 16;
        let r = op / 16 - 12;
        let z = self.registers.f.zero;
        let cy = self.registers.f.carry;
        if c == 0 {
            if r == 0 {
                self.can_ret_if(!z)
            } else if r == 1 {
                self.can_ret_if(!cy)
            } else if r == 2 {
                let w = (v % 65536) as u16;
                w <= 0xFF && self.memory.can_write(0xFF00 + w, self.registers.a) && self.pc_fits(
                    2,
                )
            } else {
                self.memory.can_read(0xFF00 + (v % 256) as u16) && self.pc_fits(2)
            }
        } else if c == 1 {
            self.can_pop() && self.pc_fits(1)
        } else if c == 2 {
            if r == 0 {
                !z || self.pc_fits(3)
            } else if r == 1 {
                !cy || self.pc_fits(3)
            } else if r == 2 {
                self.memory.can_write(0xFF00 + self.registers.c as u16, self.registers.a)
                    && self.pc_fits(1)
            } else {
                self.memory.can_read(0xFF00 + self.registers.c as u16) && self.pc_fits(1)
            }
        } else if c == 3 {
            r != 1 && (r < 2 || self.pc_fits(1))
        } else if c == 4 {
            if r == 0 {
                self.can_call_if(!z)
            } else if r == 1 {
                self.can_call_if(!cy)
            } else {
                self.pc_fits(1)
            }
        } else if c == 5 {
            let w = if r == 3 {
                self.registers.get_af()
            } else {
                read16(&self.registers, stack_pair_of(r))
            };
            self.can_push(w) && self.pc_fits(1)
        } else if c == 6 {
            self.alu_fits(2 * r, v) && self.pc_fits(2)
        } else if c == 7 || c == 15 {
            self.can_rst()
        } else if c == 8 {
            if r == 0 {
                self.can_ret_if(z)
            } else if r == 1 {
                self.can_ret_if(cy)
            } else {
                self.pc_fits(2)
            }
        } else if c == 9 {
            if r <= 1 {
                self.can_pop()
            } else if r == 2 {
                true
            } else {
                self.pc_fits(1)
            }
        } else if c == 10 {
            if r == 0 {
                z || self.pc_fits(3)
            } else if r == 1 {
                cy || self.pc_fits(3)
            } else if r == 2 {
                self.memory.can_write((v % 65536) as u16, self.registers.a) && self.pc_fits(3)
            } else {
                self.memory.can_read((v % 65536) as u16) && self.pc_fits(3)
            }
        } else if c == 11 {
            if r == 0 {
                if !self.pc_fits(2) {
                    return false;
                }
                if !self.memory.can_read(self.registers.pc + 1) {
                    return false;
                }
                let x = self.memory.rb(self.registers.pc + 1);
                proof {
                    lemma_cb_ok_pc(self@, x);
                }
                self.can_cb(x)
            } else {
                r == 3 && self.pc_fits(1)
            }
        } else if c == 12 {
            if r == 0 {
                self.can_call_if(z)
            } else if r == 1 {
                self.can_call_if(cy)
            } else {
                r == 3 && self.pc_fits(1)
            }
        } else if c == 13 {
            if r == 0 {
                self.can_call_if(true)
            } else {
                r != 3 && self.pc_fits(1)
            }
        } else {
            self.alu_fits(2 * r + 1, v) && self.pc_fits(2)
        }
    }

    /// Whether executing `opcode` with operand `v` goes ahead.
    fn can_execute(&mut self, opcode: u8, v: usize) -> (r: bool)
        requires
            old(self)@.wf(),
        ensures
            r == old(self)@.exec_ok(opcode, v),
            final(self)@ == old(self)@,
    {
        if opcode < 0x40 {
            self.can_low(opcode, v)
        } else if opcode < 0xC0 {
            if !self.pc_fits(1) {
                return false;
            }
            let i = opcode % 8;
            let hl = self.registers.get_hl();
            if opcode < 0x80 {
                if opcode == 0x76 {
                    return true;
                }
                if (opcode / 8) % 8 == 6 && !self.memory.can_write(
                    hl,
                    read8(&self.registers, reg_target_of(i)),
                ) {
                    return false;
                }
            }
            i != 6 || self.memory.can_read(hl)
        } else {
            self.can_high(opcode, v)
        }
    }

    fn can_interrupt(&mut self) -> (r: bool)
        requires
            old(self)@.wf(),
        ensures
            r == old(self)@.interrupts_ok(),
            final(self)@ == old(self)@,
    {
        proof {
            lemma_interrupt_registers(self@.mem, 0);
        }
        let iflag = self.memory.rb(0xFF0F);
        let ie = self.memory.rb(0xFFFF);
        let p = iflag & ie;
        if p == 0 || !self.ime {
            return true;
        }
        let b = irq_index_of(p);
        if b >= 5 {
            return true;
        }
        let pc = self.registers.pc;
        let ghost m = self@.mem;
        let ghost x = iflag & !(1u8 << b);
        proof {
            let sp1 = self@.sp_down(1);
            let sp2 = self@.sp_down(2);
            lemma_interrupt_registers(m, x);
            lemma_if_write_wf(m, x);
            lemma_write_ok_frame(m, 0xFF0F, x, sp1, hi_byte(pc));
            lemma_write_ok_frame(m, 0xFF0F, x, sp2, lo_byte(pc));
            if m.write_ok(sp1, hi_byte(pc)) {
                lemma_write_ok_frame(m, sp1, hi_byte(pc), sp2, lo_byte(pc));
            }
            if m.write(0xFF0F, x).write_ok(sp1, hi_byte(pc)) {
                lemma_write_ok_frame(m.write(0xFF0F, x), sp1, hi_byte(pc), sp2, lo_byte(pc));
            }
        }
        self.can_push(pc)
    }

    fn can_fetch(&mut self) -> (r: bool)
        requires
            old(self)@.wf(),
        ensures
            r == old(self)@.fetch_ok(),
            final(self)@ == old(self)@,
    {
        let pc = self.registers.pc;
        if !self.memory.can_read(pc) {
            return false;
        }
        let op = self.memory.rb(pc);
        let n = opcode_length(op);
        if n == 2 || op == 0xCB {
            if pc == 0xFFFF || !self.memory.can_read(pc + 1) {
                return false;
            }
        }
        if n == 3 {
            if pc >= 0xFFFE || !self.memory.can_read(pc + 2) || !self.memory.can_read(pc + 1) {
                return false;
            }
        }
        true
    }

    /// Takes a pending interrupt, as `interrupts` describes.
    fn check_interrupts(&mut self)
        requires
            old(self)@.wf(),
            old(self)@.interrupts_ok(),
        ensures
            final(self)@ == old(self)@.interrupts(),
            final(self)@.wf(),
    {
        proof {
            lemma_interrupt_registers(self@.mem, 0);
        }
        let iflag = self.memory.rb(0xFF0F);
        let ie = self.memory.rb(0xFFFF);
        let potential_interrupts = iflag & ie;
        if potential_interrupts == 0 {
            return ;
        }
        self.halted = false;
        if !self.ime {
            return ;
        }
        let b = irq_index_of(potential_interrupts);
        if b < 5 {
            proof {
                lemma_interrupt_registers(self@.mem, iflag & !(1u8 << b));
            }
            self.memory.wb(0xFF0F, iflag & !(1u8 << b));
            self.ime = false;
            self.push16(self.registers.pc);
            self.registers.pc = 0x40 + 8 * (b as u16);
        }
    }

    /// Fetches and executes the instruction at PC; returns whether it ran
    /// and the machine cycles it took.
    fn run_op(&mut self) -> (r: (bool, u32))
        requires
            old(self)@.wf(),
        ensures
            (final(self)@, r.0, r.1) == old(self)@.run_op(),
            final(self)@.wf(),
            final(self).delay == old(self).delay,
            r.0 ==> 1 <= r.1 <= 63,
    {
        if !self.can_fetch() {
            return (false, 0);
        }
        let opcode = self.memory.rb(self.registers.pc);
        let opcode_length = opcode_length(opcode);
        let mut v: usize = 0;
        if opcode_length == 2 {
            v = self.memory.rb(self.registers.pc + 1) as usize;
        }
        if opcode_length == 3 {
            let a = self.memory.rb(self.registers.pc + 2) as usize;
            let b = self.memory.rb(self.registers.pc + 1) as usize;
            v = a * 256 + b;
        }
        if self.registers.pc == 0x100 {
            self.memory.leave_bios();
        }
        if !self.can_execute(opcode, v) {
            return (false, 0);
        }
        let delay = (self.execute(opcode, v) as u32) / 4;
        (true, delay)
    }

    /// Accounts `d` machine cycles: GPU, then timer; false when the timer's
    /// counters would overflow.
    fn finish(&mut self, d: u32) -> (ok: bool)
        requires
            old(self)@.wf(),
            old(self).delay + d <= u32::MAX,
        ensures
            (final(self)@, ok) == old(self)@.finish(d),
            final(self)@.wf(),
            final(self).delay == old(self).delay + d,
    {
        self.delay += d;
        self.memory.cycle_gpu(d);
        if !self.memory.can_cycle_timer(d) {
            return false;
        }
        self.memory.cycle_timer(d);
        true
    }

    /// One pass of the frame loop; false when the machine stops in it.
    fn iterate(&mut self) -> (ok: bool)
        requires
            old(self)@.wf(),
            old(self).delay < 69905,
        ensures
            (final(self)@, ok) == old(self)@.iteration(),
            final(self)@.wf(),
            ok ==> old(self).delay < final(self).delay < 69905 + 64,
    {
        if !self.can_interrupt() {
            return false;
        }
        self.check_interrupts();
        self.memory.set_pc(self.registers.pc);
        if self.ime_delay {
            self.ime_delay = false;
            self.ime = true;
        }
        if self.halted {
            self.finish(1)
        } else {
            let (ok, d) = self.run_op();
            if !ok {
                return false;
            }
            self.finish(d)
        }
    }

    /// Runs one frame: the loop of interrupt checks, instructions, GPU and
    /// timer until 69905 machine cycles have run. Returns false when the
    /// machine stops on the way (an undefined opcode, an access the memory
    /// map does not answer, an arithmetic overflow), the state then being
    /// the one just before that step.
    pub fn step(&mut self) -> (ok: bool)
        requires
            old(self)@.wf(),
        ensures
            (final(self)@, ok) == old(self)@.frame_start().run_frame(),
            final(self)@.wf(),
    {
        self.delay = 0;
        self.trace = Vec::new();
        let ghost start = self@;
        assert(start == old(self)@.frame_start());
        while self.delay < 69905
            invariant
                self@.wf(),
                start == old(self)@.frame_start(),
                self@.run_frame() == start.run_frame(),
            decreases frame_left(self.delay),
        {
            let ok = self.iterate();
            if !ok {
                return false;
            }
        }
        true
    }
}

//new
impl CPU {
    pub fn new() -> (r: Self)
        ensures
            r@ == (CpuModel {
                mem: MemoryModel::initial(false),
                regs: Registers {
                    a: 0,
                    f: Flags { zero: false, sub: false, half: false, carry: false },
                    b: 0,
                    c: 0,
                    d: 0,
                    e: 0,
                    h: 0,
                    l: 0,
                    pc: 0x100,
                    sp: 0,
                },
                ime: true,
                delay: 4,
                pause: false,
                halted: false,
                debug: false,
                ime_delay: false,
                trace: Seq::empty(),
            }),
            r@.wf(),
    {
        CPU {
            memory: Memory::new(),
            registers: Registers::new(),
            ime: true,
            delay: 4,
            pause: false,
            halted: false,
            debug: false,
            ime_delay: false,
            trace: Vec::<String>::new(),
        }
    }

    /// The register values after the boot ROM: AF 0x01B0, BC 0x0013,
    /// DE 0x00D8, HL 0x014D, SP 0xFFFE, and the I/O registers set.
    pub fn init(&mut self)
        requires
            old(self)@.wf(),
        ensures
            final(self)@ == (CpuModel {
                regs: Registers {
                    a: 0x01,
                    f: flags_from_byte(0xB0),
                    b: 0x00,
                    c: 0x13,
                    d: 0x00,
                    e: 0xD8,
                    h: 0x01,
                    l: 0x4D,
                    sp: 0xFFFE,
                    ..old(self)@.regs
                },
                mem: old(self)@.mem.boot_registers(),
                ..old(self)@
            }),
            final(self)@.wf(),
    {
        self.registers.set_af(0x01B0);
        self.registers.set_bc(0x0013);
        self.registers.set_de(0x00D8);
        self.registers.set_hl(0x014D);
        self.registers.sp = 0xFFFE;
        self.memory.set_initial();
    }

    /// Loads the boot ROM image and the cartridge image; the cartridge type
    /// is read from ROM byte 0x147.
    pub fn load_rom(&mut self, boot: &Vec<u8>, cart: &Vec<u8>)
        requires
            old(self)@.wf(),
            boot.len() <= 0xFFFF,
            old(self)@.mem.rom.len() + cart.len() <= usize::MAX,
            old(self)@.mem.rom.len() + cart.len() > 0x147,
        ensures
            final(self)@ == (CpuModel { mem: old(self)@.mem.loaded(boot@, cart@), ..old(self)@ }),
            final(self)@.wf(),
    {
        proof {
            lemma_wf_sizes(self@.mem);
        }
        self.memory.load_rom(boot, cart);
    }
}

/// INC then DEC of a register pair or SP gives back every register as it
/// was; on an 8-bit register they give back its value.
pub proof fn law_inc_dec(r: Registers, t: Target)
    ensures
        is8(t) ==> get8(dec_spec(inc_spec(r, t), t), t) == get8(r, t),
        (is_pair(t) || t is SP) ==> dec_spec(inc_spec(r, t), t) == r,
{
    if is_pair(t) {
        lemma_pair_inc_dec(r, t);
    }
}

proof fn lemma_pair_inc_dec(r: Registers, t: Target)
    requires
        is_pair(t),
    ensures
        dec_spec(inc_spec(r, t), t) == r,
{
    let v = get16(r, t);
    let w = ((v + 1) % 65536) as u16;
    crate::registers::law_pair_roundtrip(w);
    crate::registers::law_pair_roundtrip(v);
    let r1 = set16(r, t, w);
    assert(get16(r1, t) == w);
    assert(((w + 65535) % 65536) as u16 == v);
    match t {
        Target::BC => {
            crate::registers::law_pair_split(r.b, r.c);
        },
        Target::DE => {
            crate::registers::law_pair_split(r.d, r.e);
        },
        _ => {
            crate::registers::law_pair_split(r.h, r.l);
        },
    }
}

/// ADD then SUB of the same byte gives back A.
#[verifier::rlimit(30)]
pub proof fn law_add_sub(r: Registers, x: u8)
    ensures
        sub_spec(add_spec(r, Target::A, x as usize), Target::A, x as usize).a == r.a,
{
}

/// CPL twice gives back A.
pub proof fn law_cpl_twice(r: Registers)
    ensures
        cpl_spec(cpl_spec(r)).a == r.a,
{
}

/// SWAP twice gives back the byte; RRC undoes RLC and RR undoes RL (RR
/// reading the carry that RL set). After RRC the carry is bit 7 of the
/// byte; after RR it is the carry from before RL; Z tells a zero byte, N
/// and H are clear.
pub proof fn law_rotations_undo(x: u8, f: Flags)
    ensures
        cb_rot(6, cb_rot(6, x, f).0, f).0 == x,
        cb_rot(1, cb_rot(0, x, f).0, f).0 == x,
        cb_rot(1, cb_rot(0, x, f).0, f).1 == (Flags {
            zero: x == 0,
            sub: false,
            half: false,
            carry: x >= 128,
        }),
        cb_rot(3, cb_rot(2, x, f).0, cb_rot(2, x, f).1).0 == x,
        cb_rot(3, cb_rot(2, x, f).0, cb_rot(2, x, f).1).1 == (Flags {
            zero: x == 0,
            sub: false,
            half: false,
            carry: f.carry,
        }),
{
}

/// CALL a16 then RET: the call jumps to the target with the return address
/// on the stack, and the return comes back after the CALL with SP and every
/// other register as before.
pub proof fn law_call_ret(s: CpuModel, t: usize)
    requires
        s.wf(),
        s.pc_fits(3),
        s.mem.plain(s.sp_down(1)),
        s.mem.plain(s.sp_down(2)),
    ensures
        s.exec_ok(0xCD, t),
        s.exec(0xCD, t).1 == 24,
        s.exec(0xCD, t).0.regs.pc == t % 65536,
        s.exec(0xCD, t).0.exec_ok(0xC9, 0),
        s.exec(0xCD, t).0.exec(0xC9, 0).1 == 16,
        s.exec(0xCD, t).0.exec(0xC9, 0).0.regs == (Registers {
            pc: (s.regs.pc + 3) as u16,
            ..s.regs
        }),
{
    reveal(CpuModel::high_ok);
    reveal(CpuModel::high_xd);
    reveal(CpuModel::high_x9);
    let a = s.advance(3);
    law_push_pop(a, a.regs.pc);
    let c = a.push(a.regs.pc).with_pc((t % 65536) as u16);
    assert(s.exec(0xCD, t) == (c, 24u8));
    assert(c.top() == a.regs.pc);
    assert(c.pop_ok());
}

/// A word pushed onto a stack in plain memory (work RAM, high RAM and the
/// like) pops back, with SP restored.
pub proof fn law_push_pop(s: CpuModel, val: u16)
    requires
        s.wf(),
        s.mem.plain(s.sp_down(1)),
        s.mem.plain(s.sp_down(2)),
    ensures
        s.push_ok(val),
        s.push(val).pop_ok(),
        s.push(val).top() == val,
        s.push(val).popped().regs.sp == s.regs.sp,
{
    let m = s.mem;
    let a1 = s.sp_down(1);
    let a2 = s.sp_down(2);
    let hi = hi_byte(val);
    let lo = lo_byte(val);
    law_plain_write_read(m, a1, hi);
    let m1 = m.write(a1, hi);
    law_plain_write_read(m1, a2, lo);
    assert(a1 as int == (a2 as int + 1) % 65536);
    law_neighbours_distinct(m1, a2);
    law_plain_write_other(m1, a2, a1, lo);
    let p = s.push(val);
    assert(p.sp_up(1) == a1);
    assert(p.regs.sp == a2);
    assert(p.mem.read(a1) == hi);
    assert(p.mem.read(a2) == lo);
    crate::registers::law_pair_split(hi, lo);
    crate::registers::law_pair_roundtrip(val);
}

/// Taking an interrupt jumps to its vector with IME clear and leaves HALT.
pub proof fn law_interrupt_dispatch(s: CpuModel)
    requires
        s.pending() != 0,
        s.ime,
        irq_index(s.pending()) < 5,
    ensures
        s.interrupts().regs.pc == 0x40 + 8 * irq_index(s.pending()),
        !s.interrupts().ime,
        !s.interrupts().halted,
{
}

/// With IME clear no interrupt is taken: only HALT ends when one is
/// pending.
pub proof fn law_interrupts_masked(s: CpuModel)
    requires
        !s.ime,
    ensures
        s.interrupts() == (CpuModel { halted: s.halted && s.pending() == 0, ..s }),
{
}

/// Every instruction that runs takes at least four clocks.
proof fn lemma_exec_cycles(s: CpuModel, op: u8, v: usize)
    requires
        s.exec_ok(op, v),
    ensures
        4 <= s.exec(op, v).1 <= 24,
        s.exec(op, v).0.delay == s.delay,
{
    let c = op % 16;
    let r = (op / 16) as int;
    if op < 0x40 {
        reveal(CpuModel::low_ok);
        if c == 0 {
            reveal(CpuModel::low_x0);
        } else if c == 1 {
            reveal(CpuModel::low_x1);
        } else if c == 2 {
            reveal(CpuModel::low_x2);
        } else if c == 3 {
            reveal(CpuModel::low_x3);
        } else if c == 4 {
            reveal(CpuModel::low_x4);
        } else if c == 5 {
            reveal(CpuModel::low_x5);
        } else if c == 6 {
            reveal(CpuModel::low_x6);
        } else if c == 7 {
            reveal(CpuModel::low_x7);
        } else if c == 8 {
            reveal(CpuModel::low_x8);
        } else if c == 9 {
            reveal(CpuModel::low_x9);
        } else if c == 10 {
            reveal(CpuModel::low_xa);
        } else if c == 11 {
            reveal(CpuModel::low_xb);
        } else if c == 12 {
            reveal(CpuModel::low_xc);
        } else if c == 13 {
            reveal(CpuModel::low_xd);
        } else if c == 14 {
            reveal(CpuModel::low_xe);
        } else {
            reveal(CpuModel::low_xf);
        }
    } else if op >= 0xC0 {
        reveal(CpuModel::high_ok);
        if c == 0 {
            reveal(CpuModel::high_x0);
        } else if c == 1 {
            reveal(CpuModel::high_x1);
        } else if c == 2 {
            reveal(CpuModel::high_x2);
        } else if c == 3 {
            reveal(CpuModel::high_x3);
        } else if c == 4 {
            reveal(CpuModel::high_x4);
        } else if c == 5 {
            reveal(CpuModel::high_x5);
        } else if c == 6 {
            reveal(CpuModel::high_x6);
        } else if c == 7 || c == 15 {
            reveal(CpuModel::high_rst);
        } else if c == 8 {
            reveal(CpuModel::high_x8);
        } else if c == 9 {
            reveal(CpuModel::high_x9);
        } else if c == 10 {
            reveal(CpuModel::high_xa);
        } else if c == 11 {
            reveal(CpuModel::high_xb);
            reveal(CpuModel::cb_exec);
        } else if c == 12 {
            reveal(CpuModel::high_xc);
        } else if c == 13 {
            reveal(CpuModel::high_xd);
        } else {
            reveal(CpuModel::high_xe);
        }
    }
}

/// A pass of the frame loop that completes advances the cycle count; no
/// pass advances it by more than six.
proof fn lemma_iteration_progress(s: CpuModel)
    requires
        s.delay < 69905,
    ensures
        s.iteration().1 ==> s.iteration().0.delay > s.delay,
        s.iteration().0.delay <= s.delay + 6,
{
    let a = s.after_interrupts();
    if !a.halted {
        let op = a.mem.read(a.regs.pc);
        let v = a.operand_word();
        let s4 = if a.regs.pc == 0x100 {
            CpuModel { mem: a.mem.boot_done(), ..a }
        } else {
            a
        };
        assert(a.delay == s.delay);
        assert(s4.delay == s.delay);
        if a.fetch_ok() && s4.exec_ok(op, v) {
            lemma_exec_cycles(s4, op, v);
            let (s5, ok, d) = a.run_op();
            assert(s5.delay == s.delay);
            assert(d >= 1);
        }
    }
}

/// A frame that completes has run at least 69905 machine cycles; started
/// at no more than 69910 cycles, a frame ends at no more than 69910.
pub proof fn law_frame_length(s: CpuModel)
    ensures
        s.run_frame().1 ==> s.run_frame().0.delay >= 69905,
        s.delay <= 69910 ==> s.run_frame().0.delay <= 69910,
    decreases frame_left(s.delay),
{
    if s.delay < 69905 {
        let (n, ok) = s.iteration();
        lemma_iteration_progress(s);
        if ok {
            law_frame_length(n);
        }
    }
}

/// Whether a byte is packed BCD: two decimal digits, one per nibble.
pub open spec fn is_bcd(x: u8) -> bool {
    x / 16 <= 9 && x % 16 <= 9
}

/// The number 0..=99 that a packed BCD byte stands for.
pub open spec fn bcd_value(x: u8) -> int {
    (x / 16) as int * 10 + (x % 16) as int
}

/// The packed BCD byte for a number 0..=99.
pub open spec fn to_bcd(n: int) -> u8 {
    ((n / 10) * 16 + n % 10) as u8
}

/// DAA after an 8-bit addition of two BCD bytes gives their decimal sum:
/// A holds the BCD of the sum modulo 100, carry tells a sum of 100 or more,
/// Z a zero result; H is clear and N stays clear.
#[verifier::spinoff_prover]
#[verifier::rlimit(50)]
pub proof fn law_daa_after_add(r: Registers, y: u8)
    requires
        is_bcd(r.a),
        is_bcd(y),
    ensures
        ({
            let d = daa_spec(add_spec(r, Target::A, y as usize));
            let sum = bcd_value(r.a) + bcd_value(y);
            &&& d.a == to_bcd(sum % 100)
            &&& d.f.carry == (sum >= 100)
            &&& d.f.zero == (sum % 100 == 0)
            &&& !d.f.half
            &&& !d.f.sub
        }),
{
    let x = r.a as int;
    let yy = y as int;
    let xh = (r.a / 16) as int;
    let xl = (r.a % 16) as int;
    let yh = (y / 16) as int;
    let yl = (y % 16) as int;
    assert(x == 16 * xh + xl && yy == 16 * yh + yl);
    lemma_daa_add_digits(xh, xl, yh, yl);
    let a1 = add_spec(r, Target::A, y as usize);
    assert(a1.a as int == (x + yy) % 256);
    assert(a1.f.half == (x % 16 + yy % 16 > 15) && a1.f.carry == (x + yy > 255) && !a1.f.sub);
    let sum = bcd_value(r.a) + bcd_value(y);
    assert(sum == 10 * xh + xl + 10 * yh + yl);
}

/// DAA after an 8-bit subtraction of two BCD bytes gives their decimal
/// difference: A holds the BCD of the difference modulo 100, carry tells a
/// borrow, Z a zero result; H is clear and N stays set.
#[verifier::spinoff_prover]
#[verifier::rlimit(50)]
pub proof fn law_daa_after_sub(r: Registers, y: u8)
    requires
        is_bcd(r.a),
        is_bcd(y),
    ensures
        ({
            let d = daa_spec(sub_spec(r, Target::A, y as usize));
            let diff = bcd_value(r.a) - bcd_value(y);
            &&& d.a == to_bcd((diff + 100) % 100)
            &&& d.f.carry == (diff < 0)
            &&& d.f.zero == (diff == 0)
            &&& !d.f.half
            &&& d.f.sub
        }),
{
    let x = r.a as int;
    let yy = y as int;
    let xh = (r.a / 16) as int;
    let xl = (r.a % 16) as int;
    let yh = (y / 16) as int;
    let yl = (y % 16) as int;
    assert(x == 16 * xh + xl && yy == 16 * yh + yl);
    lemma_daa_sub_digits(xh, xl, yh, yl);
    let a1 = sub_spec(r, Target::A, y as usize);
    assert(a1.a as int == (x - yy + 256) % 256);
    assert(a1.f.half == (x % 16 < yy % 16) && a1.f.carry == (x < yy) && a1.f.sub);
    let diff = bcd_value(r.a) - bcd_value(y);
    assert(diff == 10 * xh + xl - 10 * yh - yl);
}

/// The decimal adjustment of a BCD addition, digit by digit.
#[verifier::spinoff_prover]
proof fn lemma_daa_add_digits(xh: int, xl: int, yh: int, yl: int)
    requires
        0 <= xh <= 9,
        0 <= xl <= 9,
        0 <= yh <= 9,
        0 <= yl <= 9,
    ensures
        ({
            let x = 16 * xh + xl;
            let y = 16 * yh + yl;
            let a = (x + y) % 256;
            let six = x % 16 + y % 16 > 15 || a % 16 > 9;
            let sixty = x + y > 255 || a > 0x99;
            let adj = (if sixty {
                0x60int
            } else {
                0
            }) + (if six {
                6int
            } else {
                0
            });
            let sum = 10 * xh + xl + 10 * yh + yl;
            &&& (a + adj) % 256 == ((sum % 100) / 10) * 16 + (sum % 100) % 10
            &&& sixty == (sum >= 100)
        }),
{
    let l = xl + yl;
    let h = xh + yh;
    let x = 16 * xh + xl;
    let y = 16 * yh + yl;
    lemma_fundamental_div_mod_converse(x, 16, xh, xl);
    lemma_fundamental_div_mod_converse(y, 16, yh, yl);
    // (wrap of x + y, high nibble, low nibble, adjustment, wrap after it,
    // tens, units, hundreds)
    let (qa, ka, ra, adj, qn, tn, un, qs): (int, int, int, int, int, int, int, int) = if l <= 9 {
        if h <= 9 {
            (0, h, l, 0, 0, h, l, 0)
        } else if h <= 15 {
            (0, h, l, 0x60, 1, h - 10, l, 1)
        } else {
            (1, h - 16, l, 0x60, 0, h - 10, l, 1)
        }
    } else if l <= 15 {
        if h <= 8 {
            (0, h, l, 6, 0, h + 1, l - 10, 0)
        } else if h <= 15 {
            (0, h, l, 0x66, 1, h - 9, l - 10, 1)
        } else {
            (1, h - 16, l, 0x66, 0, h - 9, l - 10, 1)
        }
    } else {
        if h <= 8 {
            (0, h + 1, l - 16, 6, 0, h + 1, l - 10, 0)
        } else if h <= 14 {
            (0, h + 1, l - 16, 0x66, 1, h - 9, l - 10, 1)
        } else {
            (1, h - 15, l - 16, 0x66, 0, h - 9, l - 10, 1)
        }
    };
    let av = 16 * ka + ra;
    lemma_fundamental_div_mod_converse(x + y, 256, qa, av);
    lemma_fundamental_div_mod_converse(av, 16, ka, ra);
    let nv = 16 * tn + un;
    lemma_fundamental_div_mod_converse(av + adj, 256, qn, nv);
    let sum = 10 * xh + xl + 10 * yh + yl;
    let sv = 10 * tn + un;
    lemma_fundamental_div_mod_converse(sum, 100, qs, sv);
    lemma_fundamental_div_mod_converse(sv, 10, tn, un);
}

/// The decimal adjustment of a BCD subtraction, digit by digit.
#[verifier::spinoff_prover]
proof fn lemma_daa_sub_digits(xh: int, xl: int, yh: int, yl: int)
    requires
        0 <= xh <= 9,
        0 <= xl <= 9,
        0 <= yh <= 9,
        0 <= yl <= 9,
    ensures
        ({
            let x = 16 * xh + xl;
            let y = 16 * yh + yl;
            let a = (x - y + 256) % 256;
            let six = x % 16 < y % 16;
            let sixty = x < y;
            let adj = (if sixty {
                0x60int
            } else {
                0
            }) + (if six {
                6int
            } else {
                0
            });
            let diff = 10 * xh + xl - 10 * yh - yl;
            &&& (a - adj + 256) % 256 == (((diff + 100) % 100) / 10) * 16 + ((diff + 100) % 100)
                % 10
            &&& sixty == (diff < 0)
        }),
{
    let x = 16 * xh + xl;
    let y = 16 * yh + yl;
    lemma_fundamental_div_mod_converse(x, 16, xh, xl);
    lemma_fundamental_div_mod_converse(y, 16, yh, yl);
    let dh = xh - yh;
    let dl = xl - yl;
    // (wrap of x - y + 256, value, adjustment, wrap after it, tens, units,
    // hundreds of diff + 100)
    let (qa, av, adj, qn, tn, un, qs): (int, int, int, int, int, int, int) = if dl >= 0 {
        if dh >= 0 {
            (1, 16 * dh + dl, 0, 1, dh, dl, 1)
        } else {
            (0, 16 * (dh + 16) + dl, 0x60, 1, dh + 10, dl, 0)
        }
    } else {
        if dh > 0 {
            (1, 16 * (dh - 1) + (dl + 16), 6, 1, dh - 1, dl + 10, 1)
        } else {
            (0, 16 * (dh + 15) + (dl + 16), 0x66, 1, dh + 9, dl + 10, 0)
        }
    };
    lemma_fundamental_div_mod_converse(x - y + 256, 256, qa, av);
    let nv = 16 * tn + un;
    lemma_fundamental_div_mod_converse(av - adj + 256, 256, qn, nv);
    let diff = 10 * xh + xl - 10 * yh - yl;
    let sv = 10 * tn + un;
    lemma_fundamental_div_mod_converse(diff + 100, 100, qs, sv);
    lemma_fundamental_div_mod_converse(sv, 10, tn, un);
}

/// The CB rotations and shifts as bit operations on the byte `x`, `c`
/// being the carry flag before: RLC, RRC, RL, RR, SLA, SRA (bit 7 kept),
/// SWAP and SRL. The carry out is the bit shifted out (bit 7 for the left
/// moves, bit 0 for the right ones, none for SWAP), and Z tells a zero
/// result.
pub proof fn law_cb_bit_operations(x: u8, f: Flags)
    ensures
        cb_rot(0, x, f).0 == (x << 1u8) | (x >> 7u8),
        cb_rot(1, x, f).0 == (x >> 1u8) | (x << 7u8),
        cb_rot(2, x, f).0 == (x << 1u8) | (if f.carry {
            1u8
        } else {
            0u8
        }),
        cb_rot(3, x, f).0 == (x >> 1u8) | (if f.carry {
            0x80u8
        } else {
            0u8
        }),
        cb_rot(4, x, f).0 == x << 1u8,
        cb_rot(5, x, f).0 == (x >> 1u8) | (x & 0x80),
        cb_rot(6, x, f).0 == (x >> 4u8) | (x << 4u8),
        cb_rot(7, x, f).0 == x >> 1u8,
        forall|k: int|
            0 <= k <= 7 ==> (#[trigger] cb_rot(k, x, f)).1.carry == if k == 0 || k == 2 || k == 4 {
                x & 0x80 != 0
            } else if k == 6 {
                false
            } else {
                x & 1 != 0
            },
        forall|k: int|
            0 <= k <= 7 ==> (#[trigger] cb_rot(k, x, f)).1.zero == (cb_rot(k, x, f).0 == 0),
{
    let c: u8 = if f.carry {
        1
    } else {
        0
    };
    assert(((x % 128) * 2 + x / 128) as u8 == (x << 1u8) | (x >> 7u8)) by (bit_vector);
    assert((x / 2 + (x % 2) * 128) as u8 == (x >> 1u8) | (x << 7u8)) by (bit_vector);
    assert(c <= 1 ==> ((x % 128) * 2 + c) as u8 == (x << 1u8) | c) by (bit_vector);
    assert(c <= 1 ==> (x / 2 + c * 128) as u8 == (x >> 1u8) | (c * 128) as u8) by (bit_vector);
    assert(((x % 128) * 2) as u8 == x << 1u8) by (bit_vector);
    assert((x / 2 + (x / 128) * 128) as u8 == (x >> 1u8) | (x & 0x80)) by (bit_vector);
    assert((x / 16 + (x % 16) * 16) as u8 == (x >> 4u8) | (x << 4u8)) by (bit_vector);
    assert((x / 2) as u8 == x >> 1u8) by (bit_vector);
    assert((x >= 128) == (x & 0x80 != 0) && (x % 2 == 1) == (x & 1 != 0)) by (bit_vector);
}

/// Interrupt priority: of the pending interrupts (bits 0..=4), the lowest
/// set bit is taken. `irq_index` is that bit, or 5 when none is pending.
pub proof fn law_irq_priority(p: u8)
    ensures
        p & 0x1F == 0 ==> irq_index(p) == 5,
        p & 0x1F != 0 ==> 0 <= irq_index(p) < 5 && p & (1u8 << (irq_index(p) as u8)) != 0 && p
            & ((1u8 << (irq_index(p) as u8)) - 1) as u8 == 0,
{
    assert(p & 0x1F == 0 ==> p & 1 == 0 && p & 2 == 0 && p & 4 == 0 && p & 8 == 0 && p & 0x10
        == 0) by (bit_vector);
    if p & 1 != 0 {
        assert(p & (1u8 << 0u8) != 0 && p & ((1u8 << 0u8) - 1) as u8 == 0) by (bit_vector)
            requires
                p & 1 != 0,
        ;
    } else if p & 2 != 0 {
        assert(p & (1u8 << 1u8) != 0 && p & ((1u8 << 1u8) - 1) as u8 == 0) by (bit_vector)
            requires
                p & 1 == 0,
                p & 2 != 0,
        ;
    } else if p & 4 != 0 {
        assert(p & (1u8 << 2u8) != 0 && p & ((1u8 << 2u8) - 1) as u8 == 0) by (bit_vector)
            requires
                p & 1 == 0,
                p & 2 == 0,
                p & 4 != 0,
        ;
    } else if p & 8 != 0 {
        assert(p & (1u8 << 3u8) != 0 && p & ((1u8 << 3u8) - 1) as u8 == 0) by (bit_vector)
            requires
                p & 1 == 0,
                p & 2 == 0,
                p & 4 == 0,
                p & 8 != 0,
        ;
    } else if p & 0x10 != 0 {
        assert(p & (1u8 << 4u8) != 0 && p & ((1u8 << 4u8) - 1) as u8 == 0) by (bit_vector)
            requires
                p & 1 == 0,
                p & 2 == 0,
                p & 4 == 0,
                p & 8 == 0,
                p & 0x10 != 0,
        ;
    } else {
        assert(p & 0x1F == 0) by (bit_vector)
            requires
                p & 1 == 0,
                p & 2 == 0,
                p & 4 == 0,
                p & 8 == 0,
                p & 0x10 == 0,
        ;
    }
}

/// With IME set, the interrupt taken is the lowest pending one `b` (IF and
/// IE both set, bit below 5): PC goes to 0x40 + 8 * b, only IF bit `b` is
/// cleared, and the old PC is pushed, with SP two lower.
pub proof fn law_interrupt_priority(s: CpuModel, b: u8)
    requires
        s.wf(),
        s.ime,
        b < 5,
        s.pending() & (1u8 << b) != 0,
        s.pending() & ((1u8 << b) - 1) as u8 == 0,
        s.mem.plain(s.sp_down(1)),
        s.mem.plain(s.sp_down(2)),
    ensures
        s.interrupts_ok(),
        s.interrupts().regs.pc == 0x40 + 8 * b,
        s.interrupts().regs.sp == s.sp_down(2),
        s.interrupts().mem.read(0xFF0F) == s.mem.read(0xFF0F) & !(1u8 << b),
        s.interrupts().top() == s.regs.pc,
        !s.interrupts().ime,
{
    let p = s.pending();
    law_irq_priority(p);
    assert(p & 0x1F != 0) by (bit_vector)
        requires
            b < 5,
            p & (1u8 << b) != 0,
    ;
    assert(p != 0) by (bit_vector)
        requires
            p & 0x1F != 0,
    ;
    let k = irq_index(p) as u8;
    assert(k == b) by (bit_vector)
        requires
            k < 5,
            b < 5,
            p & (1u8 << k) != 0,
            p & ((1u8 << k) - 1) as u8 == 0,
            p & (1u8 << b) != 0,
            p & ((1u8 << b) - 1) as u8 == 0,
    ;
    let m = s.mem;
    assert((b as int) as u8 == b);
    let x = m.read(0xFF0F) & !(1u8 << b);
    lemma_interrupt_registers(m, x);
    lemma_if_write_wf(m, x);
    let d = s.dispatched(b as int);
    assert(d.mem == m.write(0xFF0F, x));
    lemma_interrupt_registers(d.mem, x);
    assert(d.mem.plain(s.sp_down(1)) && d.mem.plain(s.sp_down(2)));
    law_push_pop(d, s.regs.pc);
    let a1 = d.sp_down(1);
    let a2 = d.sp_down(2);
    law_plain_write_read(d.mem, a1, hi_byte(s.regs.pc));
    law_plain_write_read(d.mem.write(a1, hi_byte(s.regs.pc)), a2, lo_byte(s.regs.pc));
    lemma_interrupt_registers(s.interrupts().mem, 0);
}

/// SET, RES and BIT on a register: after SET n, BIT n finds the bit set
/// (Z clear); after RES n it finds it clear (Z set); both leave the other
/// seven bits of the register as they were; BIT sets H, clears N and keeps
/// the carry.
pub proof fn law_set_res_bit(s: CpuModel, t: Target, n: u8, m: u8)
    requires
        is8(t),
        n < 8,
        m < 8,
    ensures
        !s.bit_set(t, n).bit_test(t, n).regs.f.zero,
        s.bit_reset(t, n).bit_test(t, n).regs.f.zero,
        s.bit_test(t, n).regs.f.half && !s.bit_test(t, n).regs.f.sub,
        s.bit_test(t, n).regs.f.carry == s.regs.f.carry,
        s.bit_test(t, n).regs.f.zero == (get8(s.regs, t) & (1u8 << n) == 0),
        m != n ==> get8(s.bit_set(t, n).regs, t) & (1u8 << m) == get8(s.regs, t) & (1u8 << m),
        m != n ==> get8(s.bit_reset(t, n).regs, t) & (1u8 << m) == get8(s.regs, t) & (1u8 << m),
{
    let x = get8(s.regs, t);
    assert((x | (1u8 << n)) & (1u8 << n) != 0 && (x & !(1u8 << n)) & (1u8 << n) == 0)
        by (bit_vector)
        requires
            n < 8,
    ;
    assert(m != n ==> (x | (1u8 << n)) & (1u8 << m) == x & (1u8 << m) && (x & !(1u8 << n)) & (1u8
        << m) == x & (1u8 << m)) by (bit_vector)
        requires
            n < 8,
            m < 8,
    ;
}

} // verus!
