//! The register file of the Sharp LR35902 core: eight 8-bit registers
//! (A, F, B, C, D, E, H, L), the 16-bit program counter and stack pointer,
//! and the flag register F kept as four booleans.
use vstd::prelude::*;

verus! {

/// The flag register. Bit 7 is Zero, bit 6 Subtract, bit 5 Half-carry,
/// bit 4 Carry; the low nibble always reads as zero.
#[derive(Clone, Copy)]
pub struct Flags {
    pub zero: bool,
    pub sub: bool,
    pub half: bool,
    pub carry: bool,
}

pub struct Registers {
    /// Accumulator
    pub a: u8,
    /// Flags
    pub f: Flags,
    /// High byte of BC
    pub b: u8,
    /// Low byte of BC
    pub c: u8,
    /// High byte of DE
    pub d: u8,
    /// Low byte of DE
    pub e: u8,
    /// High byte of HL (HL is also used as a memory pointer)
    pub h: u8,
    /// Low byte of HL
    pub l: u8,
    /// Program counter
    pub pc: u16,
    /// Stack pointer
    pub sp: u16,
}

/// The 16-bit word whose high byte is `hi` and whose low byte is `lo`.
pub open spec fn pair(hi: u8, lo: u8) -> u16 {
    (hi as int * 256 + lo as int) as u16
}

/// High byte of a 16-bit word.
pub open spec fn hi_byte(v: u16) -> u8 {
    (v as int / 256) as u8
}

/// Low byte of a 16-bit word.
pub open spec fn lo_byte(v: u16) -> u8 {
    (v as int % 256) as u8
}

/// The byte that the flag register reads as.
pub open spec fn flags_byte(f: Flags) -> u8 {
    ((if f.zero { 0x80int } else { 0 }) + (if f.sub { 0x40int } else { 0 }) + (if f.half {
        0x20int
    } else {
        0
    }) + (if f.carry { 0x10int } else { 0 })) as u8
}

/// The flags that a byte written to F sets: bits 7..4, the rest ignored.
pub open spec fn flags_from_byte(v: u8) -> Flags {
    Flags {
        zero: v & 0x80 == 0x80,
        sub: v & 0x40 == 0x40,
        half: v & 0x20 == 0x20,
        carry: v & 0x10 == 0x10,
    }
}

impl Registers {
    pub open spec fn spec_af(self) -> u16 {
        pair(self.a, flags_byte(self.f))
    }

    pub open spec fn spec_bc(self) -> u16 {
        pair(self.b, self.c)
    }

    pub open spec fn spec_de(self) -> u16 {
        pair(self.d, self.e)
    }

    pub open spec fn spec_hl(self) -> u16 {
        pair(self.h, self.l)
    }

    /// Power-on values: everything zero except PC, which starts at 0x100.
    pub fn new() -> (r: Self)
        ensures
            r.a == 0 && r.b == 0 && r.c == 0 && r.d == 0 && r.e == 0 && r.h == 0 && r.l == 0,
            r.f == (Flags { zero: false, sub: false, half: false, carry: false }),
            r.pc == 0x100,
            r.sp == 0,
    {
        Registers {
            a: 0,
            f: Flags { zero: false, sub: false, half: false, carry: false },
            b: 0,
            c: 0,
            d: 0,
            e: 0,
            h: 0,
            l: 0,
            pc: 0x100,
            sp: 0,
        }
    }

    /// AF as a 16-bit word: A in the high byte, the flag byte in the low byte.
    pub fn get_af(&mut self) -> (r: u16)
        ensures
            r == old(self).spec_af(),
            *final(self) == *old(self),
    {
        let f = self.get_f();
        (self.a as u16) * 256 + f as u16
    }

    /// The flag register as a byte.
    pub fn get_f(&mut self) -> (r: u8)
        ensures
            r == flags_byte(old(self).f),
            *final(self) == *old(self),
    {
        let mut f: u8 = 0;
        if self.get_zero() {
            f = f + 0x80;
        }
        if self.get_sub() {
            f = f + 0x40;
        }
        if self.get_half() {
            f = f + 0x20;
        }
        if self.get_carry() {
            f = f + 0x10;
        }
        f
    }

    /// Loads F from a byte; only bits 7..4 matter.
    pub fn set_f(&mut self, value: u8)
        ensures
            *final(self) == (Registers { f: flags_from_byte(value), ..*old(self) }),
    {
        let new_val = value & 0xF0;
        proof {
            lemma_high_nibble_bits(value);
        }
        self.f.zero = new_val & 0x80 == 0x80;
        self.f.sub = new_val & 0x40 == 0x40;
        self.f.half = new_val & 0x20 == 0x20;
        self.f.carry = new_val & 0x10 == 0x10;
    }

    /// Loads A from the high byte and F from bits 7..4 of the low byte.
    pub fn set_af(&mut self, value: u16)
        ensures
            *final(self) == (Registers {
                a: hi_byte(value),
                f: flags_from_byte(lo_byte(value)),
                ..*old(self)
            }),
    {
        proof {
            lemma_split_word(value);
        }
        self.a = ((value & 0xFF00) >> 8) as u8;
        self.set_f((value & 0xFF) as u8);
    }

    pub fn get_bc(&self) -> (r: u16)
        ensures
            r == self.spec_bc(),
    {
        (self.b as u16) * 256 + self.c as u16
    }

    pub fn set_bc(&mut self, value: u16)
        ensures
            *final(self) == (Registers { b: hi_byte(value), c: lo_byte(value), ..*old(self) }),
    {
        proof {
            lemma_split_word(value);
        }
        self.b = ((value & 0xFF00) >> 8) as u8;
        self.c = (value & 0xFF) as u8;
    }

    pub fn get_de(&self) -> (r: u16)
        ensures
            r == self.spec_de(),
    {
        (self.d as u16) * 256 + self.e as u16
    }

    pub fn set_de(&mut self, value: u16)
        ensures
            *final(self) == (Registers { d: hi_byte(value), e: lo_byte(value), ..*old(self) }),
    {
        proof {
            lemma_split_word(value);
        }
        self.d = ((value & 0xFF00) >> 8) as u8;
        self.e = (value & 0xFF) as u8;
    }

    pub fn get_hl(&self) -> (r: u16)
        ensures
            r == self.spec_hl(),
    {
        (self.h as u16) * 256 + self.l as u16
    }

    pub fn set_hl(&mut self, value: u16)
        ensures
            *final(self) == (Registers { h: hi_byte(value), l: lo_byte(value), ..*old(self) }),
    {
        proof {
            lemma_split_word(value);
        }
        self.h = ((value & 0xFF00) >> 8) as u8;
        self.l = (value & 0xFF) as u8;
    }

    pub fn set_zero(&mut self, value: bool)
        ensures
            *final(self) == (Registers { f: Flags { zero: value, ..old(self).f }, ..*old(self) }),
    {
        self.f.zero = value;
    }

    pub fn set_sub(&mut self, value: bool)
        ensures
            *final(self) == (Registers { f: Flags { sub: value, ..old(self).f }, ..*old(self) }),
    {
        self.f.sub = value;
    }

    pub fn set_half(&mut self, value: bool)
        ensures
            *final(self) == (Registers { f: Flags { half: value, ..old(self).f }, ..*old(self) }),
    {
        self.f.half = value;
    }

    pub fn set_carry(&mut self, value: bool)
        ensures
            *final(self) == (Registers { f: Flags { carry: value, ..old(self).f }, ..*old(self) }),
    {
        self.f.carry = value;
    }

    pub fn get_zero(&self) -> (r: bool)
        ensures
            r == self.f.zero,
    {
        self.f.zero
    }

    pub fn get_sub(&self) -> (r: bool)
        ensures
            r == self.f.sub,
    {
        self.f.sub
    }

    pub fn get_half(&self) -> (r: bool)
        ensures
            r == self.f.half,
    {
        self.f.half
    }

    pub fn get_carry(&self) -> (r: bool)
        ensures
            r == self.f.carry,
    {
        self.f.carry
    }
}

/// Masking with 0xFF00 and shifting, or masking with 0xFF, splits a word
/// into its two bytes.
pub proof fn lemma_split_word(v: u16)
    ensures
        ((v & 0xFF00) >> 8) as u8 == hi_byte(v),
        (v & 0xFF) as u8 == lo_byte(v),
        (v & 0xFF00) >> 8 == v / 256,
        v & 0xFF == v % 256,
{
    assert(((v & 0xFF00) >> 8) == v / 256 && (v & 0xFF) == v % 256) by (bit_vector);
}

/// Clearing the low nibble does not change bits 7..4.
pub proof fn lemma_high_nibble_bits(v: u8)
    ensures
        ((v & 0xF0) & 0x80 == 0x80) == (v & 0x80 == 0x80),
        ((v & 0xF0) & 0x40 == 0x40) == (v & 0x40 == 0x40),
        ((v & 0xF0) & 0x20 == 0x20) == (v & 0x20 == 0x20),
        ((v & 0xF0) & 0x10 == 0x10) == (v & 0x10 == 0x10),
{
    assert(((v & 0xF0) & 0x80 == 0x80) == (v & 0x80 == 0x80) && ((v & 0xF0) & 0x40 == 0x40) == (v
        & 0x40 == 0x40) && ((v & 0xF0) & 0x20 == 0x20) == (v & 0x20 == 0x20) && ((v & 0xF0) & 0x10
        == 0x10) == (v & 0x10 == 0x10)) by (bit_vector);
}

/// Law: writing a word to a register pair and reading the pair back gives
/// the word again (for BC, DE and HL, whose setters split the word into
/// `hi_byte` and `lo_byte`).
pub proof fn law_pair_roundtrip(v: u16)
    ensures
        pair(hi_byte(v), lo_byte(v)) == v,
{
}

/// Law: the bytes of a register pair are the bytes it was built from.
pub proof fn law_pair_split(hi: u8, lo: u8)
    ensures
        hi_byte(pair(hi, lo)) == hi,
        lo_byte(pair(hi, lo)) == lo,
{
}

/// Law: reading F gives back the high nibble of the byte last written to F,
/// with the low nibble zero.
pub proof fn law_flags_write_read(v: u8)
    ensures
        flags_byte(flags_from_byte(v)) == v & 0xF0,
{
    let f = flags_from_byte(v);
    let s: u8 = flags_byte(f);
    assert(s == (if v & 0x80 == 0x80 { 0x80u8 } else { 0 }) + (if v & 0x40 == 0x40 {
        0x40u8
    } else {
        0
    }) + (if v & 0x20 == 0x20 { 0x20u8 } else { 0 }) + (if v & 0x10 == 0x10 { 0x10u8 } else { 0 }));
    assert((if v & 0x80 == 0x80 { 0x80u8 } else { 0 }) + (if v & 0x40 == 0x40 { 0x40u8 } else { 0 })
        + (if v & 0x20 == 0x20 { 0x20u8 } else { 0 }) + (if v & 0x10 == 0x10 { 0x10u8 } else { 0 })
        == v & 0xF0) by (bit_vector);
}

/// Law: writing F with the byte it reads as leaves the flags unchanged.
pub proof fn law_flags_read_write(f: Flags)
    ensures
        flags_from_byte(flags_byte(f)) == f,
{
    let (z, n, h, c) = (f.zero, f.sub, f.half, f.carry);
    let s: u8 = flags_byte(f);
    assert(s == (if z { 0x80u8 } else { 0 }) + (if n { 0x40u8 } else { 0 }) + (if h { 0x20u8 } else {
        0
    }) + (if c { 0x10u8 } else { 0 }));
    assert({
        let t: u8 = ((if z { 0x80u8 } else { 0 }) + (if n { 0x40u8 } else { 0 }) + (if h {
            0x20u8
        } else {
            0
        }) + (if c { 0x10u8 } else { 0 })) as u8;
        &&& (t & 0x80 == 0x80) == z
        &&& (t & 0x40 == 0x40) == n
        &&& (t & 0x20 == 0x20) == h
        &&& (t & 0x10 == 0x10) == c
    }) by (bit_vector);
}

} // verus!
