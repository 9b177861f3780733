//! The picture processing unit: video RAM, sprite attribute memory, the LCD
//! control and status registers, the palettes, and the mode/line timing state
//! machine that hands finished lines to the renderer.
use vstd::prelude::*;
use crate::render::{renderscan, LineParams, Scene};

verus! {

pub const VRAM_SIZE: usize = 0x4000;

pub const VOAM_SIZE: usize = 0xA0;

pub const SCREEN_W: usize = 160;

pub const SCREEN_H: usize = 144;

/// Bytes in the RGB frame buffer: three per pixel.
pub const DATA_SIZE: usize = 69120;

/// How a background pixel ranks against sprites.
#[derive(PartialEq, Eq, Copy, Clone, Structural)]
pub enum PrioType {
    Color0,
    PrioFlag,
    Normal,
}

/// The GPU's byte- and flag-sized registers.
#[derive(Clone, Copy)]
pub struct LcdRegs {
    pub mode: u8,
    pub modeclock: u32,
    pub lyc: u8,
    pub lcd_on: bool,
    pub win_tilemap: u16,
    pub win_on: bool,
    pub tilebase: u16,
    pub bg_tilemap: u16,
    pub sprite_size: u32,
    pub sprite_on: bool,
    pub lcdc0: bool,
    pub lyc_inte: bool,
    pub m0_inte: bool,
    pub m1_inte: bool,
    pub m2_inte: bool,
    pub scx: u8,
    pub scy: u8,
    pub winx: u8,
    pub winy: u8,
    pub palbr: u8,
    pub pal0r: u8,
    pub pal1r: u8,
    pub cbgpal_inc: bool,
    pub cbgpal_ind: u8,
    pub csprit_inc: bool,
    pub csprit_ind: u8,
    pub vrambank: usize,
    pub hblanking: bool,
}

pub struct GPU {
    regs: LcdRegs,
    pub line: u8,
    palb: Vec<u8>,
    pal0: Vec<u8>,
    pal1: Vec<u8>,
    vram: Vec<u8>,
    voam: Vec<u8>,
    /// Colour background palettes: 8 palettes of 4 colours of 3 components,
    /// at index `palette * 12 + colour * 3 + component`.
    cbgpal: Vec<u8>,
    /// Colour sprite palettes, laid out as `cbgpal`.
    csprit: Vec<u8>,
    pub data: Vec<u8>,
    bgprio: Vec<PrioType>,
    pub updated: bool,
    pub interrupt: u8,
}

/// The abstract state of the GPU.
pub ghost struct GpuModel {
    pub regs: LcdRegs,
    pub line: u8,
    pub palb: Seq<u8>,
    pub pal0: Seq<u8>,
    pub pal1: Seq<u8>,
    pub vram: Seq<u8>,
    pub voam: Seq<u8>,
    pub cbgpal: Seq<u8>,
    pub csprit: Seq<u8>,
    pub data: Seq<u8>,
    pub bgprio: Seq<PrioType>,
    pub updated: bool,
    pub interrupt: u8,
}

impl View for GPU {
    type V = GpuModel;

    closed spec fn view(&self) -> GpuModel {
        GpuModel {
            regs: self.regs,
            line: self.line,
            palb: self.palb@,
            pal0: self.pal0@,
            pal1: self.pal1@,
            vram: self.vram@,
            voam: self.voam@,
            cbgpal: self.cbgpal@,
            csprit: self.csprit@,
            data: self.data@,
            bgprio: self.bgprio@,
            updated: self.updated,
            interrupt: self.interrupt,
        }
    }
}

/// Shade of a 2-bit colour number through a monochrome palette register:
/// bits `2*index+1 .. 2*index` select white, light grey, dark grey or black.
pub open spec fn mono_shade(value: u8, index: int) -> u8 {
    let sel = if index <= 0 {
        value % 4
    } else if index == 1 {
        (value / 4) % 4
    } else if index == 2 {
        (value / 16) % 4
    } else {
        value / 64
    };
    if sel == 0 {
        255
    } else if sel == 1 {
        192
    } else if sel == 2 {
        96
    } else {
        0
    }
}

/// The four shades that a monochrome palette register maps colours 0..3 to.
pub open spec fn mono_palette(value: u8) -> Seq<u8> {
    seq![mono_shade(value, 0), mono_shade(value, 1), mono_shade(value, 2), mono_shade(value, 3)]
}

/// Index in a colour palette table addressed by a palette index register.
pub open spec fn cpal_index(ind: u8) -> int {
    (ind as int / 8) * 12 + ((ind as int / 2) % 4) * 3
}

/// Reading the colour palette byte that `ind` selects: even indices give
/// red and the low bits of green, odd ones the high bits of green and blue.
pub open spec fn cpal_read(pal: Seq<u8>, ind: u8) -> u8 {
    let i = cpal_index(ind);
    if ind % 2 == 0 {
        pal[i] | ((pal[i + 1] & 0x07) << 5u8)
    } else {
        ((pal[i + 1] & 0x18) >> 3u8) | (pal[i + 2] << 2u8)
    }
}

/// Writing the colour palette byte that `ind` selects.
pub open spec fn cpal_write(pal: Seq<u8>, ind: u8, value: u8) -> Seq<u8> {
    let i = cpal_index(ind);
    if ind % 2 == 0 {
        pal.update(i, value & 0x1F).update(i + 1, (pal[i + 1] & 0x18) | (value >> 5u8))
    } else {
        pal.update(i + 1, (pal[i + 1] & 0x07) | ((value & 0x3) << 3u8)).update(
            i + 2,
            (value >> 2u8) & 0x1F,
        )
    }
}

impl LcdRegs {
    pub open spec fn wf(self) -> bool {
        &&& self.vrambank <= 1
        &&& self.cbgpal_ind < 64
        &&& self.csprit_ind < 64
        &&& self.mode <= 3
        &&& self.modeclock < 456
        &&& (self.sprite_size == 8 || self.sprite_size == 16)
        &&& (self.tilebase == 0x8000 || self.tilebase == 0x8800)
        &&& (self.bg_tilemap == 0x9800 || self.bg_tilemap == 0x9C00)
        &&& (self.win_tilemap == 0x9800 || self.win_tilemap == 0x9C00)
    }

    /// LCD control register (0xFF40) as read back.
    pub open spec fn lcdc_byte(self) -> u8 {
        ((if self.lcd_on { 0x80int } else { 0 }) + (if self.win_tilemap == 0x9C00 {
            0x40int
        } else {
            0
        }) + (if self.win_on { 0x20int } else { 0 }) + (if self.tilebase == 0x8000 {
            0x10int
        } else {
            0
        }) + (if self.bg_tilemap == 0x9C00 { 0x08int } else { 0 }) + (if self.sprite_size == 16 {
            0x04int
        } else {
            0
        }) + (if self.sprite_on { 0x02int } else { 0 }) + (if self.lcdc0 { 0x01int } else { 0 }))
            as u8
    }

    /// LCD status register (0xFF41) as read back, given the current line.
    pub open spec fn stat_byte(self, line: u8) -> u8 {
        ((if self.lyc_inte { 0x40int } else { 0 }) + (if self.m2_inte { 0x20int } else { 0 }) + (
        if self.m1_inte {
            0x10int
        } else {
            0
        }) + (if self.m0_inte { 0x08int } else { 0 }) + (if line == self.lyc {
            0x04int
        } else {
            0
        }) + self.mode as int) as u8
    }

    /// The control bits that a write to 0xFF40 sets.
    pub open spec fn write_lcdc(self, value: u8) -> LcdRegs {
        LcdRegs {
            lcd_on: value & 0x80 == 0x80,
            win_tilemap: if value & 0x40 == 0x40 { 0x9C00 } else { 0x9800 },
            win_on: value & 0x20 == 0x20,
            tilebase: if value & 0x10 == 0x10 { 0x8000 } else { 0x8800 },
            bg_tilemap: if value & 0x08 == 0x08 { 0x9C00 } else { 0x9800 },
            sprite_size: if value & 0x04 == 0x04 { 16 } else { 8 },
            sprite_on: value & 0x02 == 0x02,
            lcdc0: value & 0x01 == 0x01,
            ..self
        }
    }

    /// Writing one of the byte-wide registers that hold plain values: each
    /// register takes the value when its own address is written; LY and
    /// addresses the GPU does not handle leave everything as it was.
    pub open spec fn write_reg(self, address: u16, value: u8) -> LcdRegs {
        let stat = address == 0xFF41;
        LcdRegs {
            lyc_inte: if stat { value & 0x40 == 0x40 } else { self.lyc_inte },
            m2_inte: if stat { value & 0x20 == 0x20 } else { self.m2_inte },
            m1_inte: if stat { value & 0x10 == 0x10 } else { self.m1_inte },
            m0_inte: if stat { value & 0x08 == 0x08 } else { self.m0_inte },
            scy: if address == 0xFF42 { value } else { self.scy },
            scx: if address == 0xFF43 { value } else { self.scx },
            lyc: if address == 0xFF45 { value } else { self.lyc },
            palbr: if address == 0xFF47 { value } else { self.palbr },
            pal0r: if address == 0xFF48 { value } else { self.pal0r },
            pal1r: if address == 0xFF49 { value } else { self.pal1r },
            winy: if address == 0xFF4A { value } else { self.winy },
            winx: if address == 0xFF4B { value } else { self.winx },
            vrambank: if address == 0xFF4F { (value % 2) as usize } else { self.vrambank },
            cbgpal_ind: if address == 0xFF68 { value % 64 } else { self.cbgpal_ind },
            cbgpal_inc: if address == 0xFF68 { value >= 0x80 } else { self.cbgpal_inc },
            csprit_ind: if address == 0xFF6A { value % 64 } else { self.csprit_ind },
            csprit_inc: if address == 0xFF6A { value >= 0x80 } else { self.csprit_inc },
            ..self
        }
    }
}

impl GpuModel {
    pub open spec fn wf(self) -> bool {
        &&& self.regs.wf()
        &&& self.palb.len() == 4
        &&& self.pal0.len() == 4
        &&& self.pal1.len() == 4
        &&& self.vram.len() == VRAM_SIZE
        &&& self.voam.len() == VOAM_SIZE
        &&& self.cbgpal.len() == 96
        &&& self.csprit.len() == 96
        &&& self.data.len() == DATA_SIZE
        &&& self.bgprio.len() == SCREEN_W
        &&& self.line < 154
    }

    /// Byte of video RAM that an address in 0x8000..=0x9FFF reads in the
    /// selected bank.
    pub open spec fn vram_index(self, address: u16) -> int {
        self.regs.vrambank as int * 0x2000 + address as int % 0x2000
    }

    /// The addresses the GPU answers reads for.
    pub open spec fn read_ok(self, address: u16) -> bool {
        ||| 0x8000 <= address <= 0x9FFF
        ||| 0xFE00 <= address <= 0xFE9F
        ||| 0xFF40 <= address <= 0xFF4B
        ||| address == 0xFF4F
        ||| 0xFF68 <= address <= 0xFF6B
    }

    pub open spec fn read(self, address: u16) -> u8 {
        let r = self.regs;
        if 0x8000 <= address <= 0x9FFF {
            self.vram[self.vram_index(address)]
        } else if 0xFE00 <= address <= 0xFE9F {
            self.voam[address - 0xFE00]
        } else if address == 0xFF40 {
            r.lcdc_byte()
        } else if address == 0xFF41 {
            r.stat_byte(self.line)
        } else if address == 0xFF42 {
            r.scy
        } else if address == 0xFF43 {
            r.scx
        } else if address == 0xFF44 {
            self.line
        } else if address == 0xFF45 {
            r.lyc
        } else if address == 0xFF46 {
            0
        } else if address == 0xFF47 {
            r.palbr
        } else if address == 0xFF48 {
            r.pal0r
        } else if address == 0xFF49 {
            r.pal1r
        } else if address == 0xFF4A {
            r.winy
        } else if address == 0xFF4B {
            r.winx
        } else if address == 0xFF4F {
            r.vrambank as u8
        } else if address == 0xFF68 {
            (r.cbgpal_ind + (if r.cbgpal_inc { 0x80int } else { 0 })) as u8
        } else if address == 0xFF69 {
            cpal_read(self.cbgpal, r.cbgpal_ind)
        } else if address == 0xFF6A {
            (r.csprit_ind + (if r.csprit_inc { 0x80int } else { 0 })) as u8
        } else {
            cpal_read(self.csprit, r.csprit_ind)
        }
    }

    /// The effect of writing `value` at `address`. Addresses the GPU does not
    /// handle are ignored; 0xFF46 is not the GPU's to handle.
    pub open spec fn write(self, address: u16, value: u8) -> GpuModel {
        if 0x8000 <= address <= 0x9FFF {
            GpuModel { vram: self.vram.update(self.vram_index(address), value), ..self }
        } else if 0xFE00 <= address <= 0xFE9F {
            GpuModel { voam: self.voam.update(address - 0xFE00, value), ..self }
        } else if address == 0xFF40 {
            self.write_lcdc(value)
        } else if address == 0xFF69 || address == 0xFF6B {
            self.write_cpal_data(address, value)
        } else if 0xFF47 <= address <= 0xFF49 {
            // A palette register write recomputes the shades.
            let regs = self.regs.write_reg(address, value);
            GpuModel {
                regs,
                palb: mono_palette(regs.palbr),
                pal0: mono_palette(regs.pal0r),
                pal1: mono_palette(regs.pal1r),
                ..self
            }
        } else {
            GpuModel { regs: self.regs.write_reg(address, value), ..self }
        }
    }

    /// The effect of writing `value` to the LCD control register: switching
    /// the LCD off resets the timing and blanks the screen.
    #[verifier::opaque]
    pub open spec fn write_lcdc(self, value: u8) -> GpuModel {
        let regs = self.regs.write_lcdc(value);
        if self.regs.lcd_on && !regs.lcd_on {
            GpuModel {
                regs: LcdRegs { modeclock: 0, mode: 0, ..regs },
                line: 0,
                data: Seq::new(self.data.len(), |i: int| 255u8),
                updated: true,
                ..self
            }
        } else {
            GpuModel { regs, ..self }
        }
    }

    /// Writing a colour palette data port (0xFF69 background, 0xFF6B
    /// sprites): the selected byte changes and the index advances when
    /// auto-increment is on.
    #[verifier::opaque]
    pub open spec fn write_cpal_data(self, address: u16, value: u8) -> GpuModel {
        let r = self.regs;
        if address == 0xFF69 {
            GpuModel {
                cbgpal: cpal_write(self.cbgpal, r.cbgpal_ind, value),
                regs: LcdRegs {
                    cbgpal_ind: if r.cbgpal_inc {
                        ((r.cbgpal_ind + 1) % 64) as u8
                    } else {
                        r.cbgpal_ind
                    },
                    ..r
                },
                ..self
            }
        } else {
            GpuModel {
                csprit: cpal_write(self.csprit, r.csprit_ind, value),
                regs: LcdRegs {
                    csprit_ind: if r.csprit_inc {
                        ((r.csprit_ind + 1) % 64) as u8
                    } else {
                        r.csprit_ind
                    },
                    ..r
                },
                ..self
            }
        }
    }

    /// The registers, memories and palettes the renderer reads.
    pub open spec fn scene(self) -> Scene {
        Scene {
            p: LineParams {
                line: self.line,
                scx: self.regs.scx,
                scy: self.regs.scy,
                winx: self.regs.winx,
                winy: self.regs.winy,
                win_on: self.regs.win_on,
                lcdc0: self.regs.lcdc0,
                sprite_on: self.regs.sprite_on,
                sprite_size: self.regs.sprite_size,
                tilebase: self.regs.tilebase,
                bg_tilemap: self.regs.bg_tilemap,
                win_tilemap: self.regs.win_tilemap,
            },
            vram: self.vram,
            voam: self.voam,
            palb: self.palb,
            pal0: self.pal0,
            pal1: self.pal1,
        }
    }

    /// Entering H-blank (mode 0): the current line is drawn, and the STAT
    /// interrupt is raised when its mode 0 source is enabled.
    #[verifier::opaque]
    pub open spec fn enter_hblank(self) -> GpuModel {
        let g = GpuModel {
            regs: LcdRegs { mode: 0, hblanking: true, ..self.regs },
            data: self.scene().line_data(self.data),
            bgprio: self.scene().line_prio(),
            ..self
        };
        if self.regs.m0_inte {
            GpuModel { interrupt: g.interrupt | 0x02, ..g }
        } else {
            g
        }
    }

    /// Entering mode 1, 2 or 3: V-blank (mode 1) raises the V-blank
    /// interrupt and marks the frame ready; the STAT interrupt is raised when
    /// the mode's source (1 or 2) is enabled.
    #[verifier::opaque]
    pub open spec fn enter_mode(self, mode: u8) -> GpuModel {
        let r = LcdRegs { mode, ..self.regs };
        let vblank = mode == 1;
        let stat = (mode == 1 && r.m1_inte) || (mode == 2 && r.m2_inte);
        let i1: u8 = if vblank {
            self.interrupt | 0x01
        } else {
            self.interrupt
        };
        GpuModel {
            regs: r,
            interrupt: if stat {
                i1 | 0x02
            } else {
                i1
            },
            updated: if vblank {
                true
            } else {
                self.updated
            },
            ..self
        }
    }

    /// Entering mode `mode`.
    pub open spec fn change_mode(self, mode: u8) -> GpuModel {
        if mode == 0 {
            self.enter_hblank()
        } else {
            self.enter_mode(mode)
        }
    }

    /// LY=LYC coincidence interrupt.
    pub open spec fn check_lyc(self) -> GpuModel {
        if self.regs.lyc_inte && self.line == self.regs.lyc {
            GpuModel { interrupt: self.interrupt | 0x02, ..self }
        } else {
            self
        }
    }

    /// The clock part of a slice: the mode clock advances, and a full line
    /// of 456 clocks moves to the next line, entering V-blank at line 144.
    pub open spec fn tick_advance(self, cur: u32) -> GpuModel {
        let clock = self.regs.modeclock + cur;
        if clock >= 456 {
            GpuModel {
                regs: LcdRegs { modeclock: (clock - 456) as u32, ..self.regs },
                ..self
            }.next_line()
        } else {
            GpuModel { regs: LcdRegs { modeclock: clock as u32, ..self.regs }, ..self }
        }
    }

    /// Moving to the next line (wrapping after 153): the LY=LYC check, and
    /// V-blank on reaching line 144.
    #[verifier::opaque]
    pub open spec fn next_line(self) -> GpuModel {
        let g = GpuModel { line: ((self.line + 1) % 154) as u8, ..self }.check_lyc();
        if g.line >= 144 && g.regs.mode != 1 {
            g.change_mode(1)
        } else {
            g
        }
    }

    /// The mode part of a slice: on a visible line, OAM search (mode 2) for
    /// the first 80 clocks, pixel transfer (mode 3) up to 252, then H-blank
    /// (mode 0).
    pub open spec fn tick_mode(self) -> GpuModel {
        let want: u8 = if self.regs.modeclock <= 80 {
            2
        } else if self.regs.modeclock <= 80 + 172 {
            3
        } else {
            0
        };
        if self.line < 144 && self.regs.mode != want {
            self.change_mode(want)
        } else {
            self
        }
    }

    /// One slice of at most 80 clocks.
    pub open spec fn tick(self, cur: u32) -> GpuModel {
        self.tick_advance(cur).tick_mode()
    }

    /// `ticks` clocks in slices of 80.
    pub open spec fn run(self, ticks: u32) -> GpuModel
        decreases ticks,
    {
        if ticks == 0 {
            self
        } else {
            let cur: u32 = if ticks >= 80 {
                80
            } else {
                ticks
            };
            self.tick(cur).run((ticks - cur) as u32)
        }
    }

    /// Advancing the GPU by `ticks` clocks; nothing happens with the LCD off.
    pub open spec fn cycle(self, ticks: u32) -> GpuModel {
        if !self.regs.lcd_on {
            self
        } else {
            GpuModel { regs: LcdRegs { hblanking: false, ..self.regs }, ..self }.run(ticks)
        }
    }

    /// The state after power-on.
    pub open spec fn initial() -> GpuModel {
        GpuModel {
            regs: LcdRegs {
                mode: 0,
                modeclock: 0,
                lyc: 0,
                lcd_on: false,
                win_tilemap: 0x9C00,
                win_on: false,
                tilebase: 0x8000,
                bg_tilemap: 0x9C00,
                sprite_size: 8,
                sprite_on: false,
                lcdc0: false,
                lyc_inte: false,
                m0_inte: false,
                m1_inte: false,
                m2_inte: false,
                scx: 0,
                scy: 0,
                winx: 0,
                winy: 0,
                palbr: 0,
                pal0r: 0,
                pal1r: 1,
                cbgpal_inc: false,
                cbgpal_ind: 0,
                csprit_inc: false,
                csprit_ind: 0,
                vrambank: 0,
                hblanking: false,
            },
            line: 0,
            palb: Seq::new(4, |i: int| 0u8),
            pal0: Seq::new(4, |i: int| 0u8),
            pal1: Seq::new(4, |i: int| 0u8),
            vram: Seq::new(VRAM_SIZE as nat, |i: int| 0u8),
            voam: Seq::new(VOAM_SIZE as nat, |i: int| 0u8),
            cbgpal: Seq::new(96, |i: int| 0u8),
            csprit: Seq::new(96, |i: int| 0u8),
            data: Seq::new(DATA_SIZE as nat, |i: int| 0u8),
            bgprio: Seq::new(SCREEN_W as nat, |i: int| PrioType::Normal),
            updated: false,
            interrupt: 0,
        }
    }
}

/// Facts about masks and shifts of a byte that the GPU registers use.
pub proof fn lemma_byte_bits(v: u8)
    ensures
        v & 0x01 == v % 2,
        v & 0x03 == v % 4,
        v & 0x07 == v % 8,
        v & 0x1F == v % 32,
        v & 0x3F == v % 64,
        (v & 0x80 == 0x80) == (v >= 0x80),
        v >> 1u8 == v / 2,
        v >> 3u8 == v / 8,
        (v >> 1u8) & 0x03 == (v / 2) % 4,
{
    assert(v & 0x01 == v % 2 && v & 0x03 == v % 4 && v & 0x07 == v % 8 && v & 0x1F == v % 32 && v
        & 0x3F == v % 64 && (v & 0x80 == 0x80) == (v >= 0x80) && v >> 1u8 == v / 2 && v >> 3u8 == v
        / 8 && (v >> 1u8) & 0x03 == (v / 2) % 4) by (bit_vector);
}

/// The bank-selected video RAM index as the GPU computes it.
proof fn lemma_vram_index(bank: usize, address: u16)
    requires
        bank <= 1,
    ensures
        ((bank * 0x2000) as usize) | (address as usize & 0x1FFF) == bank * 0x2000 + address as int
            % 0x2000,
{
    let a = address as usize;
    let m: usize = (bank * 0x2000) as usize;
    assert(a % 0x2000 == address as int % 0x2000);
    assert(m | (a & 0x1FFF) == m + a % 0x2000) by (bit_vector)
        requires
            m == 0 || m == 0x2000,
    ;
}

/// The monochrome shade selector as the GPU computes it.
proof fn lemma_mono(value: u8, index: u32)
    requires
        index < 4,
    ensures
        (index == 0 ==> (value >> (2 * index)) & 0x03 == value % 4),
        (index == 1 ==> (value >> (2 * index)) & 0x03 == (value / 4) % 4),
        (index == 2 ==> (value >> (2 * index)) & 0x03 == (value / 16) % 4),
        (index == 3 ==> (value >> (2 * index)) & 0x03 == value / 64),
{
    assert((index == 0 ==> (value >> (2 * index)) & 0x03 == value % 4) && (index == 1 ==> (value
        >> (2 * index)) & 0x03 == (value / 4) % 4) && (index == 2 ==> (value >> (2 * index)) & 0x03
        == (value / 16) % 4) && (index == 3 ==> (value >> (2 * index)) & 0x03 == value / 64))
        by (bit_vector);
}

/// Reads the colour palette byte that `ind` selects.
fn read_cpal(pal: &Vec<u8>, ind: u8) -> (r: u8)
    requires
        pal.len() == 96,
        ind < 64,
    ensures
        r == cpal_read(pal@, ind),
{
    proof {
        lemma_byte_bits(ind);
    }
    let palnum = (ind >> 3) as usize;
    let colnum = ((ind >> 1) & 0x3) as usize;
    let i = palnum * 12 + colnum * 3;
    if ind & 0x01 == 0x00 {
        pal[i] | ((pal[i + 1] & 0x07) << 5)
    } else {
        ((pal[i + 1] & 0x18) >> 3) | (pal[i + 2] << 2)
    }
}

/// Writes the colour palette byte that `ind` selects.
fn write_cpal(pal: &mut Vec<u8>, ind: u8, value: u8)
    requires
        old(pal).len() == 96,
        ind < 64,
    ensures
        final(pal)@ == cpal_write(old(pal)@, ind, value),
{
    proof {
        lemma_byte_bits(ind);
    }
    let palnum = (ind >> 3) as usize;
    let colnum = ((ind >> 1) & 0x03) as usize;
    let i = palnum * 12 + colnum * 3;
    if ind & 0x01 == 0x00 {
        pal[i] = value & 0x1F;
        pal[i + 1] = (pal[i + 1] & 0x18) | (value >> 5);
    } else {
        pal[i + 1] = (pal[i + 1] & 0x07) | ((value & 0x3) << 3);
        pal[i + 2] = (value >> 2) & 0x1F;
    }
    assert(pal@ =~= cpal_write(old(pal)@, ind, value));
}

/// Fills the frame buffer with white.
fn clear_screen(data: &mut Vec<u8>)
    ensures
        final(data)@ == Seq::new(old(data)@.len(), |i: int| 255u8),
{
    let mut i: usize = 0;
    let n = data.len();
    while i < n
        invariant
            n == data.len(),
            0 <= i <= n,
            forall|j: int| 0 <= j < i ==> data@[j] == 255u8,
        decreases n - i,
    {
        data[i] = 255;
        i = i + 1;
    }
    assert(data@ =~= Seq::new(old(data)@.len(), |i: int| 255u8));
}

/// Shade of colour `index` through a monochrome palette register.
fn get_monochrome_pal_val(value: u8, index: usize) -> (r: u8)
    requires
        index < 4,
    ensures
        r == mono_shade(value, index as int),
{
    proof {
        lemma_mono(value, index as u32);
    }
    match (value >> (2 * index as u32)) & 0x03 {
        0 => 255,
        1 => 192,
        2 => 96,
        _ => 0,
    }
}

/// Recomputes the three monochrome palettes from their registers.
fn update_pal(palbr: u8, pal0r: u8, pal1r: u8, palb: &mut Vec<u8>, pal0: &mut Vec<u8>, pal1: &mut Vec<
    u8,
>)
    requires
        old(palb).len() == 4,
        old(pal0).len() == 4,
        old(pal1).len() == 4,
    ensures
        final(palb)@ == mono_palette(palbr),
        final(pal0)@ == mono_palette(pal0r),
        final(pal1)@ == mono_palette(pal1r),
{
    let mut i: usize = 0;
    while i < 4
        invariant
            0 <= i <= 4,
            palb.len() == 4,
            pal0.len() == 4,
            pal1.len() == 4,
            forall|j: int| 0 <= j < i ==> palb@[j] == mono_shade(palbr, j),
            forall|j: int| 0 <= j < i ==> pal0@[j] == mono_shade(pal0r, j),
            forall|j: int| 0 <= j < i ==> pal1@[j] == mono_shade(pal1r, j),
        decreases 4 - i,
    {
        palb[i] = get_monochrome_pal_val(palbr, i);
        pal0[i] = get_monochrome_pal_val(pal0r, i);
        pal1[i] = get_monochrome_pal_val(pal1r, i);
        i = i + 1;
    }
    assert(palb@ =~= mono_palette(palbr));
    assert(pal0@ =~= mono_palette(pal0r));
    assert(pal1@ =~= mono_palette(pal1r));
}

/// The LCD control register as read back.
fn read_lcdc(r: &LcdRegs) -> (b: u8)
    ensures
        b == r.lcdc_byte(),
{
    let mut b: u8 = 0;
    if r.lcd_on {
        b = b + 0x80;
    }
    if r.win_tilemap == 0x9C00 {
        b = b + 0x40;
    }
    if r.win_on {
        b = b + 0x20;
    }
    if r.tilebase == 0x8000 {
        b = b + 0x10;
    }
    if r.bg_tilemap == 0x9C00 {
        b = b + 0x08;
    }
    if r.sprite_size == 16 {
        b = b + 0x04;
    }
    if r.sprite_on {
        b = b + 0x02;
    }
    if r.lcdc0 {
        b = b + 0x01;
    }
    b
}

/// The LCD status register as read back.
fn read_stat(r: &LcdRegs, line: u8) -> (b: u8)
    requires
        r.mode <= 3,
    ensures
        b == r.stat_byte(line),
{
    let mut b: u8 = r.mode;
    if r.lyc_inte {
        b = b + 0x40;
    }
    if r.m2_inte {
        b = b + 0x20;
    }
    if r.m1_inte {
        b = b + 0x10;
    }
    if r.m0_inte {
        b = b + 0x08;
    }
    if line == r.lyc {
        b = b + 0x04;
    }
    b
}

/// The control bits a write to 0xFF40 sets.
fn write_lcdc_regs(r: LcdRegs, value: u8) -> (n: LcdRegs)
    ensures
        n == r.write_lcdc(value),
{
    LcdRegs {
        lcd_on: value & 0x80 == 0x80,
        win_tilemap: if value & 0x40 == 0x40 {
            0x9C00
        } else {
            0x9800
        },
        win_on: value & 0x20 == 0x20,
        tilebase: if value & 0x10 == 0x10 {
            0x8000
        } else {
            0x8800
        },
        bg_tilemap: if value & 0x08 == 0x08 {
            0x9C00
        } else {
            0x9800
        },
        sprite_size: if value & 0x04 == 0x04 {
            16
        } else {
            8
        },
        sprite_on: value & 0x02 == 0x02,
        lcdc0: value & 0x01 == 0x01,
        ..r
    }
}

/// The plain byte-wide registers a write changes.
fn write_reg_regs(r: LcdRegs, address: u16, value: u8) -> (n: LcdRegs)
    ensures
        n == r.write_reg(address, value),
{
    proof {
        lemma_byte_bits(value);
    }
    let stat = address == 0xFF41;
    LcdRegs {
        lyc_inte: if stat {
            value & 0x40 == 0x40
        } else {
            r.lyc_inte
        },
        m2_inte: if stat {
            value & 0x20 == 0x20
        } else {
            r.m2_inte
        },
        m1_inte: if stat {
            value & 0x10 == 0x10
        } else {
            r.m1_inte
        },
        m0_inte: if stat {
            value & 0x08 == 0x08
        } else {
            r.m0_inte
        },
        scy: if address == 0xFF42 {
            value
        } else {
            r.scy
        },
        scx: if address == 0xFF43 {
            value
        } else {
            r.scx
        },
        lyc: if address == 0xFF45 {
            value
        } else {
            r.lyc
        },
        palbr: if address == 0xFF47 {
            value
        } else {
            r.palbr
        },
        pal0r: if address == 0xFF48 {
            value
        } else {
            r.pal0r
        },
        pal1r: if address == 0xFF49 {
            value
        } else {
            r.pal1r
        },
        winy: if address == 0xFF4A {
            value
        } else {
            r.winy
        },
        winx: if address == 0xFF4B {
            value
        } else {
            r.winx
        },
        vrambank: if address == 0xFF4F {
            (value & 0x01) as usize
        } else {
            r.vrambank
        },
        cbgpal_ind: if address == 0xFF68 {
            value & 0x3F
        } else {
            r.cbgpal_ind
        },
        cbgpal_inc: if address == 0xFF68 {
            value & 0x80 == 0x80
        } else {
            r.cbgpal_inc
        },
        csprit_ind: if address == 0xFF6A {
            value & 0x3F
        } else {
            r.csprit_ind
        },
        csprit_inc: if address == 0xFF6A {
            value & 0x80 == 0x80
        } else {
            r.csprit_inc
        },
        ..r
    }
}

impl GPU {
    pub fn new() -> (r: GPU)
        ensures
            r@ == GpuModel::initial(),
            r@.wf(),
    {
        let r = GPU {
            regs: LcdRegs {
                mode: 0,
                modeclock: 0,
                lyc: 0,
                lcd_on: false,
                win_tilemap: 0x9C00,
                win_on: false,
                tilebase: 0x8000,
                bg_tilemap: 0x9C00,
                sprite_size: 8,
                sprite_on: false,
                lcdc0: false,
                lyc_inte: false,
                m2_inte: false,
                m1_inte: false,
                m0_inte: false,
                scy: 0,
                scx: 0,
                winy: 0,
                winx: 0,
                palbr: 0,
                pal0r: 0,
                pal1r: 1,
                cbgpal_inc: false,
                cbgpal_ind: 0,
                csprit_inc: false,
                csprit_ind: 0,
                vrambank: 0,
                hblanking: false,
            },
            line: 0,
            palb: vec![0; 4],
            pal0: vec![0; 4],
            pal1: vec![0; 4],
            vram: vec![0; 0x4000],
            voam: vec![0; 0xA0],
            data: vec![0; 69120],
            bgprio: vec![PrioType::Normal; 160],
            updated: false,
            interrupt: 0,
            cbgpal: vec![0u8; 96],
            csprit: vec![0u8; 96],
        };
        assert(r@.palb =~= GpuModel::initial().palb);
        assert(r@.pal0 =~= GpuModel::initial().pal0);
        assert(r@.pal1 =~= GpuModel::initial().pal1);
        assert(r@.vram =~= GpuModel::initial().vram);
        assert(r@.voam =~= GpuModel::initial().voam);
        assert(r@.cbgpal =~= GpuModel::initial().cbgpal);
        assert(r@.csprit =~= GpuModel::initial().csprit);
        assert(r@.data =~= GpuModel::initial().data);
        assert(r@.bgprio =~= GpuModel::initial().bgprio);
        r
    }

    pub fn new_cgb() -> (r: GPU)
        ensures
            r@ == GpuModel::initial(),
            r@.wf(),
    {
        GPU::new()
    }

    /// Advances the LCD timing by `ticks` clocks, in slices of at most 80.
    pub fn do_cycle(&mut self, ticks: u32)
        requires
            old(self)@.wf(),
        ensures
            final(self)@ == old(self)@.cycle(ticks),
            final(self)@.wf(),
    {
        if !self.regs.lcd_on {
            return ;
        }
        self.regs.hblanking = false;
        let mut ticksleft = ticks;
        while ticksleft > 0
            invariant
                self@.wf(),
                self@.run(ticksleft) == old(self)@.cycle(ticks),
            decreases ticksleft,
        {
            let curticks = if ticksleft >= 80 {
                80
            } else {
                ticksleft
            };
            self.advance_clock(curticks);
            self.update_mode();
            ticksleft -= curticks;
        }
    }

    #[verifier::rlimit(30)]
    fn advance_clock(&mut self, curticks: u32)
        requires
            old(self)@.wf(),
            curticks <= 80,
        ensures
            final(self)@ == old(self)@.tick_advance(curticks),
            final(self)@.wf(),
    {
        let clock = self.regs.modeclock + curticks;
        if clock >= 456 {
            self.regs.modeclock = clock - 456;
            self.next_line();
        } else {
            self.regs.modeclock = clock;
        }
    }

    fn next_line(&mut self)
        requires
            old(self)@.wf(),
        ensures
            final(self)@ == old(self)@.next_line(),
            final(self)@.wf(),
    {
        reveal(GpuModel::next_line);
        self.line = (self.line + 1) % 154;
        self.check_interrupt_lyc();
        if self.line >= 144 && self.regs.mode != 1 {
            self.change_mode(1);
        }
    }

    fn update_mode(&mut self)
        requires
            old(self)@.wf(),
        ensures
            final(self)@ == old(self)@.tick_mode(),
            final(self)@.wf(),
    {
        if self.line < 144 {
            if self.regs.modeclock <= 80 {
                if self.regs.mode != 2 {
                    self.change_mode(2);
                }
            } else if self.regs.modeclock <= (80 + 172) {
                if self.regs.mode != 3 {
                    self.change_mode(3);
                }
            } else {
                if self.regs.mode != 0 {
                    self.change_mode(0);
                }
            }
        }
    }

    fn check_interrupt_lyc(&mut self)
        requires
            old(self)@.wf(),
        ensures
            final(self)@ == old(self)@.check_lyc(),
    {
        if self.regs.lyc_inte && self.line == self.regs.lyc {
            self.interrupt |= 0x02;
        }
    }

    fn change_mode(&mut self, mode: u8)
        requires
            old(self)@.wf(),
            mode <= 3,
            mode == 0 ==> old(self).line < 144,
        ensures
            final(self)@ == old(self)@.change_mode(mode),
            final(self)@.wf(),
    {
        if mode == 0 {
            self.enter_hblank();
        } else {
            self.enter_mode(mode);
        }
    }

    fn enter_hblank(&mut self)
        requires
            old(self)@.wf(),
            old(self).line < 144,
        ensures
            final(self)@ == old(self)@.enter_hblank(),
            final(self)@.wf(),
    {
        reveal(GpuModel::enter_hblank);
        self.regs.mode = 0;
        let p = self.line_params();
        renderscan(
            p,
            &self.vram,
            &self.voam,
            &self.palb,
            &self.pal0,
            &self.pal1,
            &mut self.data,
            &mut self.bgprio,
        );
        self.regs.hblanking = true;
        if self.regs.m0_inte {
            self.interrupt |= 0x02;
        }
    }

    fn enter_mode(&mut self, mode: u8)
        requires
            old(self)@.wf(),
            1 <= mode <= 3,
        ensures
            final(self)@ == old(self)@.enter_mode(mode),
            final(self)@.wf(),
    {
        reveal(GpuModel::enter_mode);
        self.regs.mode = mode;
        let vblank = mode == 1;
        let stat = (mode == 1 && self.regs.m1_inte) || (mode == 2 && self.regs.m2_inte);
        let i1 = if vblank {
            self.interrupt | 0x01
        } else {
            self.interrupt
        };
        self.interrupt = if stat {
            i1 | 0x02
        } else {
            i1
        };
        self.updated = vblank || self.updated;
    }

    /// The LCD registers the renderer reads.
    fn line_params(&self) -> (r: LineParams)
        ensures
            r == self@.scene().p,
    {
        LineParams {
            line: self.line,
            scx: self.regs.scx,
            scy: self.regs.scy,
            winx: self.regs.winx,
            winy: self.regs.winy,
            win_on: self.regs.win_on,
            lcdc0: self.regs.lcdc0,
            sprite_on: self.regs.sprite_on,
            sprite_size: self.regs.sprite_size,
            tilebase: self.regs.tilebase,
            bg_tilemap: self.regs.bg_tilemap,
            win_tilemap: self.regs.win_tilemap,
        }
    }

    /// Reads a GPU register, video RAM or sprite attribute memory.
    pub fn rb(&mut self, address: u16) -> (r: u8)
        requires
            old(self)@.wf(),
            old(self)@.read_ok(address),
        ensures
            r == old(self)@.read(address),
            *final(self) == *old(self),
    {
        if address <= 0x9FFF {
            proof {
                lemma_vram_index(self.regs.vrambank, address);
            }
            self.vram[(self.regs.vrambank * 0x2000) | (address as usize & 0x1FFF)]
        } else if address <= 0xFE9F {
            self.voam[address as usize - 0xFE00]
        } else if address == 0xFF40 {
            read_lcdc(&self.regs)
        } else if address == 0xFF41 {
            read_stat(&self.regs, self.line)
        } else {
            self.read_reg(address)
        }
    }

    /// The byte-wide registers from 0xFF42 on.
    fn read_reg(&self, address: u16) -> (r: u8)
        requires
            self@.wf(),
            self@.read_ok(address),
            address >= 0xFF42,
        ensures
            r == self@.read(address),
    {
        match address {
            0xFF42 => self.regs.scy,
            0xFF43 => self.regs.scx,
            0xFF44 => self.line,
            0xFF45 => self.regs.lyc,
            0xFF46 => 0,
            0xFF47 => self.regs.palbr,
            0xFF48 => self.regs.pal0r,
            0xFF49 => self.regs.pal1r,
            0xFF4A => self.regs.winy,
            0xFF4B => self.regs.winx,
            0xFF4F => self.regs.vrambank as u8,
            0xFF68 => {
                self.regs.cbgpal_ind + (if self.regs.cbgpal_inc {
                    0x80
                } else {
                    0
                })
            },
            0xFF69 => read_cpal(&self.cbgpal, self.regs.cbgpal_ind),
            0xFF6A => {
                self.regs.csprit_ind + (if self.regs.csprit_inc {
                    0x80
                } else {
                    0
                })
            },
            _ => read_cpal(&self.csprit, self.regs.csprit_ind),
        }
    }

    /// Writes a GPU register, video RAM or sprite attribute memory.
    pub fn wb(&mut self, address: u16, value: u8)
        requires
            old(self)@.wf(),
            address != 0xFF46,
        ensures
            final(self)@ == old(self)@.write(address, value),
            final(self)@.wf(),
    {
        if 0x8000 <= address && address <= 0x9FFF {
            proof {
                lemma_vram_index(self.regs.vrambank, address);
            }
            self.vram[(self.regs.vrambank * 0x2000) | (address as usize & 0x1FFF)] = value;
        } else if 0xFE00 <= address && address <= 0xFE9F {
            self.voam[address as usize - 0xFE00] = value;
        } else if address == 0xFF40 {
            self.write_lcdc(value);
        } else if address == 0xFF69 || address == 0xFF6B {
            self.write_cpal_data(address, value);
        } else if 0xFF47 <= address && address <= 0xFF49 {
            self.regs = write_reg_regs(self.regs, address, value);
            update_pal(
                self.regs.palbr,
                self.regs.pal0r,
                self.regs.pal1r,
                &mut self.palb,
                &mut self.pal0,
                &mut self.pal1,
            );
        } else {
            self.regs = write_reg_regs(self.regs, address, value);
        }
    }

    /// Writes a colour palette data port.
    fn write_cpal_data(&mut self, address: u16, value: u8)
        requires
            old(self)@.wf(),
            address == 0xFF69 || address == 0xFF6B,
        ensures
            final(self)@ == old(self)@.write_cpal_data(address, value),
            final(self)@.wf(),
    {
        reveal(GpuModel::write_cpal_data);
        if address == 0xFF69 {
            write_cpal(&mut self.cbgpal, self.regs.cbgpal_ind, value);
            if self.regs.cbgpal_inc {
                self.regs.cbgpal_ind = (self.regs.cbgpal_ind + 1) % 64;
            }
        } else {
            write_cpal(&mut self.csprit, self.regs.csprit_ind, value);
            if self.regs.csprit_inc {
                self.regs.csprit_ind = (self.regs.csprit_ind + 1) % 64;
            }
        }
    }

    /// Writes the LCD control register.
    fn write_lcdc(&mut self, value: u8)
        requires
            old(self)@.wf(),
        ensures
            final(self)@ == old(self)@.write_lcdc(value),
            final(self)@.wf(),
    {
        reveal(GpuModel::write_lcdc);
        let orig_lcd_on = self.regs.lcd_on;
        self.regs = write_lcdc_regs(self.regs, value);
        if orig_lcd_on && !self.regs.lcd_on {
            self.regs.modeclock = 0;
            self.line = 0;
            self.regs.mode = 0;
            clear_screen(&mut self.data);
            self.updated = true;
        }
    }

    /// Hands over the interrupt bits raised since the last call, clearing
    /// them.
    pub fn take_interrupt(&mut self) -> (r: u8)
        ensures
            r == old(self)@.interrupt,
            final(self)@ == (GpuModel { interrupt: 0, ..old(self)@ }),
    {
        let r = self.interrupt;
        self.interrupt = 0;
        r
    }

    /// Whether an HBlank-driven VRAM transfer may run now.
    pub fn may_hdma(&self) -> (r: bool)
        ensures
            r == self@.regs.hblanking,
    {
        return self.regs.hblanking;
    }
}

/// With the LCD off, running the GPU changes nothing.
pub proof fn law_lcd_off_cycle(g: GpuModel, ticks: u32)
    requires
        !g.regs.lcd_on,
    ensures
        g.cycle(ticks) == g,
{
}

/// Video RAM and sprite attribute memory read back what was written.
pub proof fn law_gpu_memory_write_read(g: GpuModel, a: u16, v: u8)
    requires
        g.wf(),
        0x8000 <= a <= 0x9FFF || 0xFE00 <= a <= 0xFE9F,
    ensures
        g.write(a, v).read_ok(a),
        g.write(a, v).read(a) == v,
{
}

/// The LCD mode that a visible line is in at a given point of its 456
/// clocks: OAM search (2) up to 80, pixel transfer (3) up to 252, then
/// H-blank (0).
pub open spec fn mode_for_clock(clock: u32) -> u8 {
    if clock <= 80 {
        2
    } else if clock <= 80 + 172 {
        3
    } else {
        0
    }
}

/// A shade that a monochrome palette maps a colour to.
pub open spec fn is_shade(x: u8) -> bool {
    x == 0 || x == 96 || x == 192 || x == 255
}

impl GpuModel {
    /// The timing invariant: the line and the clock within the line are in
    /// range, and V-blank (mode 1) is the mode exactly on lines 144..=153.
    pub open spec fn timing_ok(self) -> bool {
        &&& self.line < 154
        &&& self.regs.modeclock < 456
        &&& (self.line >= 144 <==> self.regs.mode == 1)
    }

    /// Whether some slice of `ticks` clocks run from this state switches
    /// the LCD into H-blank (mode 0) from another mode.
    pub open spec fn hblank_entered(self, ticks: u32) -> bool
        decreases ticks,
    {
        if ticks == 0 {
            false
        } else {
            let cur: u32 = if ticks >= 80 {
                80
            } else {
                ticks
            };
            let n = self.tick(cur);
            (self.regs.mode != 0 && n.regs.mode == 0) || n.hblank_entered((ticks - cur) as u32)
        }
    }
}

proof fn lemma_interrupt_bits(x: u8)
    ensures
        (x | 1) & 1 == 1,
        (x | 1 | 2) & 1 == 1,
        x & 1 == 1 ==> (x | 2) & 1 == 1,
{
    assert((x | 1) & 1 == 1 && (x | 1 | 2) & 1 == 1 && (x & 1 == 1 ==> (x | 2) & 1 == 1))
        by (bit_vector);
}

/// One slice keeps the timing invariant, leaves a visible line in the mode
/// its clock calls for, raises V-blank on reaching line 144, never clears
/// the V-blank bit or the frame-ready mark, and sets the H-blank flag
/// exactly when it enters H-blank.
#[verifier::rlimit(40)]
proof fn lemma_tick_timing(g: GpuModel, cur: u32)
    requires
        g.timing_ok(),
        0 < cur <= 80,
    ensures
        g.tick(cur).timing_ok(),
        g.tick(cur).line < 144 ==> g.tick(cur).regs.mode == mode_for_clock(
            g.tick(cur).regs.modeclock,
        ),
        (g.line < 144 && g.tick(cur).line >= 144) ==> g.tick(cur).interrupt & 1 == 1
            && g.tick(cur).updated,
        g.interrupt & 1 == 1 ==> g.tick(cur).interrupt & 1 == 1,
        g.updated ==> g.tick(cur).updated,
        g.tick(cur).regs.hblanking == (g.regs.hblanking || (g.regs.mode != 0 && g.tick(
            cur,
        ).regs.mode == 0)),
{
    reveal(GpuModel::enter_hblank);
    reveal(GpuModel::enter_mode);
    reveal(GpuModel::next_line);
    lemma_interrupt_bits(g.interrupt);
    let a = g.tick_advance(cur);
    let b = GpuModel { line: ((g.line + 1) % 154) as u8, ..g };
    lemma_interrupt_bits(b.interrupt);
    lemma_interrupt_bits(b.check_lyc().interrupt);
    lemma_interrupt_bits(a.interrupt);
}

proof fn lemma_run_timing(g: GpuModel, ticks: u32)
    requires
        g.timing_ok(),
    ensures
        g.run(ticks).timing_ok(),
        ticks > 0 && g.run(ticks).line < 144 ==> g.run(ticks).regs.mode == mode_for_clock(
            g.run(ticks).regs.modeclock,
        ),
        (g.line < 144 && g.run(ticks).line >= 144) ==> g.run(ticks).interrupt & 1 == 1
            && g.run(ticks).updated,
        g.interrupt & 1 == 1 ==> g.run(ticks).interrupt & 1 == 1,
        g.updated ==> g.run(ticks).updated,
        g.run(ticks).regs.hblanking == (g.regs.hblanking || g.hblank_entered(ticks)),
    decreases ticks,
{
    if ticks > 0 {
        let cur: u32 = if ticks >= 80 {
            80
        } else {
            ticks
        };
        lemma_tick_timing(g, cur);
        lemma_run_timing(g.tick(cur), (ticks - cur) as u32);
    }
}

/// LCD timing over a call of `do_cycle` with the LCD on: the timing
/// invariant holds throughout; after a non-empty run a visible line is in
/// the mode its clock calls for; reaching line 144 raises the V-blank
/// interrupt and marks the frame ready, and neither is cleared by the GPU;
/// and the H-blank flag (what `may_hdma` reports) is set exactly when the
/// run entered H-blank.
pub proof fn law_gpu_timing(g: GpuModel, ticks: u32)
    requires
        g.regs.lcd_on,
        g.timing_ok(),
    ensures
        g.cycle(ticks).timing_ok(),
        ticks > 0 && g.cycle(ticks).line < 144 ==> g.cycle(ticks).regs.mode == mode_for_clock(
            g.cycle(ticks).regs.modeclock,
        ),
        (g.line < 144 && g.cycle(ticks).line >= 144) ==> g.cycle(ticks).interrupt & 1 == 1
            && g.cycle(ticks).updated,
        g.interrupt & 1 == 1 ==> g.cycle(ticks).interrupt & 1 == 1,
        g.updated ==> g.cycle(ticks).updated,
        g.cycle(ticks).regs.hblanking == (GpuModel {
            regs: LcdRegs { hblanking: false, ..g.regs },
            ..g
        }).hblank_entered(ticks),
{
    lemma_run_timing(GpuModel { regs: LcdRegs { hblanking: false, ..g.regs }, ..g }, ticks);
}

/// The GPU starts with the timing invariant, and no register, memory or
/// palette write breaks it.
#[verifier::rlimit(40)]
pub proof fn law_gpu_write_timing(g: GpuModel, a: u16, v: u8)
    requires
        g.timing_ok(),
    ensures
        GpuModel::initial().timing_ok(),
        g.write(a, v).timing_ok(),
{
    let n = g.write(a, v);
    if a == 0xFF40 {
        reveal(GpuModel::write_lcdc);
    } else if a == 0xFF69 || a == 0xFF6B {
        reveal(GpuModel::write_cpal_data);
        assert(n.line == g.line && n.regs.mode == g.regs.mode && n.regs.modeclock
            == g.regs.modeclock);
    } else {
        assert(n.line == g.line && n.regs.mode == g.regs.mode && n.regs.modeclock
            == g.regs.modeclock);
    }
}

/// The monochrome palettes only ever hold the four shades: whatever is
/// written to BGP, OBP0 or OBP1, each colour maps to one of them.
pub proof fn law_gpu_shades(g: GpuModel, a: u16, v: u8, i: int)
    requires
        0xFF47 <= a <= 0xFF49,
        0 <= i < 4,
    ensures
        is_shade(g.write(a, v).palb[i]),
        is_shade(g.write(a, v).pal0[i]),
        is_shade(g.write(a, v).pal1[i]),
        forall|j: int| 0 <= j < 4 ==> is_shade(#[trigger] GpuModel::initial().palb[j]),
{
}

/// Colour palette bytes read back: writing the low then the high byte of a
/// colour through the data port, the index reads back the low byte and the
/// index plus one the high byte without its unused top bit.
pub proof fn law_cpal_round_trip(pal: Seq<u8>, ind: u8, lo: u8, hi: u8)
    requires
        pal.len() == 96,
        ind < 64,
        ind % 2 == 0,
    ensures
        ({
            let p = cpal_write(cpal_write(pal, ind, lo), (ind + 1) as u8, hi);
            &&& p.len() == 96
            &&& cpal_read(p, ind) == lo
            &&& cpal_read(p, (ind + 1) as u8) == hi & 0x7F
        }),
{
    let i = cpal_index(ind);
    assert(cpal_index((ind + 1) as u8) == i);
    let p1 = cpal_write(pal, ind, lo);
    let p = cpal_write(p1, (ind + 1) as u8, hi);
    let m = pal[i + 1];
    assert(p[i] == lo & 0x1F);
    assert(p[i + 1] == (((m & 0x18) | (lo >> 5u8)) & 0x07) | ((hi & 0x3) << 3u8));
    assert(p[i + 2] == (hi >> 2u8) & 0x1F);
    assert(((lo & 0x1F) | (((((m & 0x18) | (lo >> 5u8)) & 0x07) | ((hi & 0x3) << 3u8)) & 0x07)
        << 5u8) == lo) by (bit_vector);
    assert(((((((m & 0x18) | (lo >> 5u8)) & 0x07) | ((hi & 0x3) << 3u8)) & 0x18) >> 3u8) | (((hi
        >> 2u8) & 0x1F) << 2u8) == hi & 0x7F) by (bit_vector);
}

/// The colour palette index registers: with bit 7 set, each write of the
/// data port advances the index by one, wrapping at 64.
pub proof fn law_cpal_auto_increment(g: GpuModel, ind: u8, v: u8)
    requires
        ind < 64,
    ensures
        g.write(0xFF68, 0x80 | ind).write(0xFF69, v).read(0xFF68) == 0x80 | ((ind + 1) % 64)
            as u8,
        g.write(0xFF6A, 0x80 | ind).write(0xFF6B, v).read(0xFF6A) == 0x80 | ((ind + 1) % 64)
            as u8,
{
    reveal(GpuModel::write_cpal_data);
    assert((0x80 | ind) % 64 == ind && (0x80 | ind) >= 0x80) by (bit_vector)
        requires
            ind < 64,
    ;
    let x = ((ind + 1) % 64) as u8;
    assert(0x80 | x == x + 0x80) by (bit_vector)
        requires
            x < 64,
    ;
}

proof fn lemma_stat_bits(a: u8, b: u8, c: u8, d: u8, e: u8, m: u8)
    requires
        a <= 1,
        b <= 1,
        c <= 1,
        d <= 1,
        e <= 1,
        m <= 3,
    ensures
        ((a * 0x40 + b * 0x20 + c * 0x10 + d * 8 + e * 4 + m) as u8 & 0x40 != 0) == (a == 1),
        ((a * 0x40 + b * 0x20 + c * 0x10 + d * 8 + e * 4 + m) as u8 & 0x78 == 0) == (a == 0 && b
            == 0 && c == 0 && d == 0),
{
    assert(((a * 0x40 + b * 0x20 + c * 0x10 + d * 8 + e * 4 + m) as u8 & 0x40 != 0) == (a == 1)
        && ((a * 0x40 + b * 0x20 + c * 0x10 + d * 8 + e * 4 + m) as u8 & 0x78 == 0) == (a == 0 && b
        == 0 && c == 0 && d == 0)) by (bit_vector)
        requires
            a <= 1,
            b <= 1,
            c <= 1,
            d <= 1,
            e <= 1,
            m <= 3,
    ;
}

proof fn lemma_stat_interrupt_bits(x: u8)
    ensures
        (x | 2) & 2 != 0,
        x & 2 != 0 ==> (x | 1) & 2 != 0 && (x | 1 | 2) & 2 != 0,
        (x | 1) & 2 == x & 2,
{
    assert((x | 2) & 2 != 0 && (x & 2 != 0 ==> (x | 1) & 2 != 0 && (x | 1 | 2) & 2 != 0) && (x
        | 1) & 2 == x & 2) by (bit_vector);
}

/// The LY=LYC interrupt: when LY moves on to the line LYC (0xFF45) holds
/// and STAT (0xFF41) bit 6 enables that source, the STAT interrupt bit
/// (0x02) is raised; with none of the STAT sources (bits 3..=6) enabled it
/// is left as it was.
pub proof fn law_lyc_interrupt(g: GpuModel)
    requires
        g.wf(),
    ensures
        g.next_line().line == (g.line + 1) % 154,
        (g.read(0xFF41) & 0x40 != 0 && g.next_line().line == g.read(0xFF45))
            ==> g.next_line().interrupt & 2 != 0,
        g.read(0xFF41) & 0x78 == 0 ==> g.next_line().interrupt & 2 == g.interrupt & 2,
{
    reveal(GpuModel::next_line);
    reveal(GpuModel::enter_mode);
    let r = g.regs;
    let a: u8 = if r.lyc_inte {
        1
    } else {
        0
    };
    let b: u8 = if r.m2_inte {
        1
    } else {
        0
    };
    let c: u8 = if r.m1_inte {
        1
    } else {
        0
    };
    let d: u8 = if r.m0_inte {
        1
    } else {
        0
    };
    let e: u8 = if g.line == r.lyc {
        1
    } else {
        0
    };
    lemma_stat_bits(a, b, c, d, e, r.mode);
    assert(g.read(0xFF41) == (a * 0x40 + b * 0x20 + c * 0x10 + d * 8 + e * 4 + r.mode) as u8);
    let h = GpuModel { line: ((g.line + 1) % 154) as u8, ..g };
    lemma_stat_interrupt_bits(g.interrupt);
    lemma_stat_interrupt_bits(h.check_lyc().interrupt);
}

} // verus!
