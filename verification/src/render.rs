//! The scanline renderer: one line of the frame buffer drawn from the tile
//! maps, the tile data, the sprite attribute table and the palettes.
use vstd::prelude::*;
use crate::gpu::{PrioType, DATA_SIZE, SCREEN_W};

verus! {

/// The LCD registers that drawing a line reads.
#[derive(Clone, Copy)]
pub struct LineParams {
    pub line: u8,
    pub scx: u8,
    pub scy: u8,
    pub winx: u8,
    pub winy: u8,
    pub win_on: bool,
    pub lcdc0: bool,
    pub sprite_on: bool,
    pub sprite_size: u32,
    pub tilebase: u16,
    pub bg_tilemap: u16,
    pub win_tilemap: u16,
}

/// Everything drawing a line reads: the registers, video RAM, sprite
/// attribute memory and the three monochrome palettes.
pub ghost struct Scene {
    pub p: LineParams,
    pub vram: Seq<u8>,
    pub voam: Seq<u8>,
    pub palb: Seq<u8>,
    pub pal0: Seq<u8>,
    pub pal1: Seq<u8>,
}

pub open spec fn pow2_8(i: int) -> int {
    if i <= 0 {
        1
    } else if i == 1 {
        2
    } else if i == 2 {
        4
    } else if i == 3 {
        8
    } else if i == 4 {
        16
    } else if i == 5 {
        32
    } else if i == 6 {
        64
    } else {
        128
    }
}

/// Colour number (0..3) of bit `bit` of a tile row given by its two bit planes.
pub open spec fn color_number(lo_plane: u8, hi_plane: u8, bit: int) -> int {
    (lo_plane as int / pow2_8(bit)) % 2 + 2 * ((hi_plane as int / pow2_8(bit)) % 2)
}

/// Index in the frame buffer of component `k` of pixel (`x`, `line`).
pub open spec fn pixel_index(line: int, x: int, k: int) -> int {
    line * 480 + x * 3 + k
}

/// Whether frame buffer index `i` lies on line `line`.
pub open spec fn on_line(line: int, i: int) -> bool {
    line * 480 <= i < line * 480 + 480
}

/// The screen column of frame buffer index `i` on line `line`.
pub open spec fn column(line: int, i: int) -> int {
    (i - line * 480) / 3
}

/// Tile data address of tile number `tilenr` in the tile set at `tilebase`:
/// unsigned numbering from 0x8000, signed numbering centred on 0x9000.
pub open spec fn tile_address(tilebase: u16, tilenr: u8) -> int {
    tilebase as int + (if tilebase == 0x8000 {
        tilenr as int
    } else if tilenr < 128 {
        tilenr as int + 128
    } else {
        tilenr as int - 128
    }) * 16
}

/// The first `n` columns of line `line` set to white.
pub open spec fn blank_upto(line: int, data: Seq<u8>, n: int) -> Seq<u8> {
    Seq::new(
        data.len(),
        |i: int|
            if on_line(line, i) && column(line, i) < n {
                255u8
            } else {
                data[i]
            },
    )
}

impl Scene {
    pub open spec fn wf(self) -> bool {
        &&& self.p.line < 144
        &&& (self.p.sprite_size == 8 || self.p.sprite_size == 16)
        &&& (self.p.tilebase == 0x8000 || self.p.tilebase == 0x8800)
        &&& (self.p.bg_tilemap == 0x9800 || self.p.bg_tilemap == 0x9C00)
        &&& (self.p.win_tilemap == 0x9800 || self.p.win_tilemap == 0x9C00)
        &&& self.vram.len() >= 0x2000
        &&& self.voam.len() == 0xA0
        &&& self.palb.len() == 4
        &&& self.pal0.len() == 4
        &&& self.pal1.len() == 4
    }

    /// Window line counter: -1 when the window is off.
    pub open spec fn win_row(self) -> int {
        if !self.p.win_on {
            -1
        } else {
            self.p.line as int - self.p.winy as int
        }
    }

    /// Background row: SCY + LY, wrapping at 256.
    pub open spec fn bg_row(self) -> int {
        (self.p.scy as int + self.p.line as int) % 256
    }

    /// Whether the background pass draws anything on this line.
    pub open spec fn bg_active(self) -> bool {
        !(self.win_row() < 0 && !self.p.lcdc0)
    }

    /// Tile map address, row within the tile and column within the tile of
    /// screen column `x`, or `None` when neither the window nor the
    /// background covers it.
    pub open spec fn bg_fetch(self, x: int) -> Option<(int, int, int)> {
        let winy = self.win_row();
        let winx = x + 7 - self.p.winx as int;
        if winy >= 0 && winx >= 0 {
            Some(
                (
                    self.p.win_tilemap as int + (winy / 8) % 32 * 32 + winx / 8,
                    winy % 8,
                    winx % 8,
                ),
            )
        } else if self.p.lcdc0 {
            let bgx = self.p.scx as int + x;
            Some(
                (
                    self.p.bg_tilemap as int + (self.bg_row() / 8) * 32 + (bgx / 8) % 32,
                    self.bg_row() % 8,
                    bgx % 8,
                ),
            )
        } else {
            None
        }
    }

    /// Colour number of the background/window pixel at screen column `x`.
    pub open spec fn bg_color_number(self, x: int) -> int {
        let (map_addr, row, col) = self.bg_fetch(x).unwrap();
        let tilenr = self.vram[map_addr - 0x8000];
        let a0 = tile_address(self.p.tilebase, tilenr) + row * 2;
        color_number(self.vram[a0 - 0x8000], self.vram[a0 + 1 - 0x8000], 7 - col)
    }

    /// The shade and priority the background pass gives screen column `x`,
    /// or `None` when it leaves the column alone.
    pub open spec fn bg_pixel(self, x: int) -> Option<(u8, PrioType)> {
        if !self.bg_active() || self.bg_fetch(x) is None {
            None
        } else {
            let c = self.bg_color_number(x);
            Some(
                (
                    self.palb[c],
                    if c == 0 {
                        PrioType::Color0
                    } else {
                        PrioType::Normal
                    },
                ),
            )
        }
    }

    /// OAM byte `k` of sprite `i`.
    pub open spec fn oam(self, i: int, k: int) -> u8 {
        self.voam[i * 4 + k]
    }

    /// Shade sprite `i` puts at screen column `px` of the current line, or
    /// `None` when it leaves the column alone.
    pub open spec fn sprite_pixel(self, bgprio: Seq<PrioType>, i: int, px: int) -> Option<u8> {
        let spritey = self.oam(i, 0) as int - 16;
        let spritex = self.oam(i, 1) as int - 8;
        let tilenum = if self.p.sprite_size == 16 {
            self.oam(i, 2) as int / 2 * 2
        } else {
            self.oam(i, 2) as int
        };
        let flags = self.oam(i, 3);
        let usepal1 = flags & 0x10 != 0;
        let xflip = flags & 0x20 != 0;
        let yflip = flags & 0x40 != 0;
        let belowbg = flags & 0x80 != 0;
        let line = self.p.line as int;
        let size = self.p.sprite_size as int;
        let x = px - spritex;
        if line < spritey || line >= spritey + size || spritex < -7 || spritex >= 160 || x < 0
            || x >= 8 || px < 0 || px >= 160 {
            None
        } else {
            let tiley = if yflip {
                size - 1 - (line - spritey)
            } else {
                line - spritey
            };
            let addr = tilenum * 16 + tiley * 2;
            let bit = if xflip {
                x
            } else {
                7 - x
            };
            let c = color_number(self.vram[addr], self.vram[addr + 1], bit);
            if c == 0 || (belowbg && bgprio[px] != PrioType::Color0) {
                None
            } else if usepal1 {
                Some(self.pal1[c])
            } else {
                Some(self.pal0[c])
            }
        }
    }

    /// The shade of the sprite with the lowest index in `lo..40` that draws
    /// at `px`: later-drawn (lower-index) sprites cover earlier ones.
    pub open spec fn sprites_pixel(self, bgprio: Seq<PrioType>, lo: int, px: int) -> Option<u8>
        decreases 40 - lo,
    {
        if lo >= 40 {
            None
        } else if self.sprite_pixel(bgprio, lo, px) is Some {
            self.sprite_pixel(bgprio, lo, px)
        } else {
            self.sprites_pixel(bgprio, lo + 1, px)
        }
    }

    /// The background and window pass over the first `n` columns.
    pub open spec fn bg_data_upto(self, data: Seq<u8>, n: int) -> Seq<u8> {
        let line = self.p.line as int;
        Seq::new(
            data.len(),
            |i: int|
                if on_line(line, i) && column(line, i) < n && self.bg_pixel(column(line, i)) is Some {
                    self.bg_pixel(column(line, i)).unwrap().0
                } else {
                    data[i]
                },
        )
    }

    /// Background priorities of the first `n` columns written over `bgprio`.
    pub open spec fn bg_prio_upto(self, bgprio: Seq<PrioType>, n: int) -> Seq<PrioType> {
        Seq::new(
            bgprio.len(),
            |x: int|
                if x < n && self.bg_pixel(x) is Some {
                    self.bg_pixel(x).unwrap().1
                } else {
                    bgprio[x]
                },
        )
    }

    /// The sprites from `lo` to 39 drawn over the line.
    pub open spec fn sprites_data_from(self, bgprio: Seq<PrioType>, data: Seq<u8>, lo: int) -> Seq<
        u8,
    > {
        let line = self.p.line as int;
        Seq::new(
            data.len(),
            |i: int|
                if on_line(line, i) && self.sprites_pixel(bgprio, lo, column(line, i)) is Some {
                    self.sprites_pixel(bgprio, lo, column(line, i)).unwrap()
                } else {
                    data[i]
                },
        )
    }

    /// Sprites `i+1..40` drawn, then the first `n` columns of sprite `i`
    /// (placed at `spritex`).
    pub open spec fn sprite_partial(
        self,
        bgprio: Seq<PrioType>,
        data: Seq<u8>,
        i: int,
        spritex: int,
        n: int,
    ) -> Seq<u8> {
        let line = self.p.line as int;
        let base = self.sprites_data_from(bgprio, data, i + 1);
        Seq::new(
            data.len(),
            |j: int|
                if on_line(line, j) && spritex <= column(line, j) < spritex + n
                    && self.sprite_pixel(bgprio, i, column(line, j)) is Some {
                    self.sprite_pixel(bgprio, i, column(line, j)).unwrap()
                } else {
                    base[j]
                },
        )
    }

    /// The priority row after drawing a line: the background pass's
    /// priorities, normal where it draws nothing.
    #[verifier::opaque]
    pub open spec fn line_prio(self) -> Seq<PrioType> {
        self.bg_prio_upto(Seq::new(SCREEN_W as nat, |x: int| PrioType::Normal), 160)
    }

    /// The frame buffer after drawing the current line over `data`: the line
    /// blanked to white, then background and window, then sprites on top.
    #[verifier::opaque]
    pub open spec fn line_data(self, data: Seq<u8>) -> Seq<u8> {
        let line = self.p.line as int;
        let bg = self.bg_data_upto(blank_upto(line, data, 160), 160);
        if self.p.sprite_on {
            self.sprites_data_from(self.line_prio(), bg, 0)
        } else {
            bg
        }
    }
}

proof fn lemma_bit_test(b: u8, bit: u32)
    requires
        bit < 8,
    ensures
        (b & (1u8 << bit) != 0) == ((b as int / pow2_8(bit as int)) % 2 == 1),
{
    let m: u8 = 1u8 << bit;
    assert((bit == 0 ==> (m == 1 && (b & m != 0) == (b % 2 == 1))) && (bit == 1 ==> (m == 2 && (b
        & m != 0) == ((b / 2) % 2 == 1))) && (bit == 2 ==> (m == 4 && (b & m != 0) == ((b / 4) % 2
        == 1))) && (bit == 3 ==> (m == 8 && (b & m != 0) == ((b / 8) % 2 == 1))) && (bit == 4 ==> (m
        == 16 && (b & m != 0) == ((b / 16) % 2 == 1))) && (bit == 5 ==> (m == 32 && (b & m != 0) == (
        (b / 32) % 2 == 1))) && (bit == 6 ==> (m == 64 && (b & m != 0) == ((b / 64) % 2 == 1))) && (
    bit == 7 ==> (m == 128 && (b & m != 0) == ((b / 128) % 2 == 1)))) by (bit_vector)
        requires
            m == 1u8 << bit,
            bit < 8,
    ;
}

/// Colour number (0..3) of a tile row pixel, tested bit by bit as the
/// hardware does.
fn pixel_color_number(b1: u8, b2: u8, bit: u32) -> (r: usize)
    requires
        bit < 8,
    ensures
        r == color_number(b1, b2, bit as int),
        r < 4,
{
    proof {
        lemma_bit_test(b1, bit);
        lemma_bit_test(b2, bit);
    }
    (if b1 & (1u8 << bit) != 0 {
        1
    } else {
        0
    }) + (if b2 & (1u8 << bit) != 0 {
        2
    } else {
        0
    })
}

/// Sets pixel `x` of line `line` to a grey level.
fn setcolor(data: &mut Vec<u8>, line: u8, x: usize, color: u8)
    requires
        old(data).len() == DATA_SIZE,
        line < 144,
        x < 160,
    ensures
        final(data).len() == DATA_SIZE,
        forall|i: int|
            0 <= i < DATA_SIZE ==> #[trigger] final(data)@[i] == if on_line(line as int, i) && column(
                line as int,
                i,
            ) == x {
                color
            } else {
                old(data)@[i]
            },
{
    let base = line as usize * SCREEN_W * 3 + x * 3;
    data[base + 0] = color;
    data[base + 1] = color;
    data[base + 2] = color;
    proof {
        let ln = line as int;
        assert forall|i: int| 0 <= i < DATA_SIZE implies #[trigger] data@[i] == if on_line(ln, i)
            && column(ln, i) == x {
            color
        } else {
            old(data)@[i]
        } by {
            if on_line(ln, i) {
                assert(column(ln, i) == x <==> (i == pixel_index(ln, x as int, 0) || i
                    == pixel_index(ln, x as int, 1) || i == pixel_index(ln, x as int, 2)));
            }
        }
    }
}

/// Draws the current line: clears it to white with normal priority, then
/// draws the background and window, then the sprites.
pub fn renderscan(
    p: LineParams,
    vram: &Vec<u8>,
    voam: &Vec<u8>,
    palb: &Vec<u8>,
    pal0: &Vec<u8>,
    pal1: &Vec<u8>,
    data: &mut Vec<u8>,
    bgprio: &mut Vec<PrioType>,
)
    requires
        (Scene { p, vram: vram@, voam: voam@, palb: palb@, pal0: pal0@, pal1: pal1@ }).wf(),
        old(data).len() == DATA_SIZE,
        old(bgprio).len() == SCREEN_W,
    ensures
        final(data)@ == (Scene {
            p,
            vram: vram@,
            voam: voam@,
            palb: palb@,
            pal0: pal0@,
            pal1: pal1@,
        }).line_data(old(data)@),
        final(bgprio)@ == (Scene {
            p,
            vram: vram@,
            voam: voam@,
            palb: palb@,
            pal0: pal0@,
            pal1: pal1@,
        }).line_prio(),
        final(data).len() == DATA_SIZE,
        final(bgprio).len() == SCREEN_W,
{
    reveal(Scene::line_prio);
    reveal(Scene::line_data);
    let ghost sc = Scene { p, vram: vram@, voam: voam@, palb: palb@, pal0: pal0@, pal1: pal1@ };
    let ghost d0 = data@;
    let mut x: usize = 0;
    assert(blank_upto(p.line as int, d0, 0) =~= d0);
    while x < SCREEN_W
        invariant
            0 <= x <= SCREEN_W,
            p.line < 144,
            data.len() == DATA_SIZE,
            bgprio.len() == SCREEN_W,
            data@ == blank_upto(p.line as int, d0, x as int),
            forall|j: int| 0 <= j < x ==> bgprio@[j] == PrioType::Normal,
        decreases SCREEN_W - x,
    {
        setcolor(data, p.line, x, 255);
        bgprio[x] = PrioType::Normal;
        x = x + 1;
        assert(data@ =~= blank_upto(p.line as int, d0, x as int));
    }
    assert(bgprio@ =~= Seq::new(SCREEN_W as nat, |x: int| PrioType::Normal));
    draw_bg(p, vram, voam, palb, pal0, pal1, data, bgprio);
    if p.sprite_on {
        draw_sprites(p, vram, voam, palb, pal0, pal1, data, bgprio);
    }
}

/// Draws background and window tiles over the current line.
fn draw_bg(
    p: LineParams,
    vram: &Vec<u8>,
    voam: &Vec<u8>,
    palb: &Vec<u8>,
    pal0: &Vec<u8>,
    pal1: &Vec<u8>,
    data: &mut Vec<u8>,
    bgprio: &mut Vec<PrioType>,
)
    requires
        p.line < 144,
        (p.tilebase == 0x8000 || p.tilebase == 0x8800),
        (p.bg_tilemap == 0x9800 || p.bg_tilemap == 0x9C00),
        (p.win_tilemap == 0x9800 || p.win_tilemap == 0x9C00),
        vram.len() >= 0x2000,
        palb.len() == 4,
        old(data).len() == DATA_SIZE,
        old(bgprio).len() == SCREEN_W,
    ensures
        ({
            let sc = Scene { p, vram: vram@, voam: voam@, palb: palb@, pal0: pal0@, pal1: pal1@ };
            &&& final(data)@ == sc.bg_data_upto(old(data)@, 160)
            &&& final(bgprio)@ == sc.bg_prio_upto(old(bgprio)@, 160)
        }),
        final(data).len() == DATA_SIZE,
        final(bgprio).len() == SCREEN_W,
{
    let ghost sc = Scene { p, vram: vram@, voam: voam@, palb: palb@, pal0: pal0@, pal1: pal1@ };
    let ghost d0 = data@;
    let ghost q0 = bgprio@;
    let drawbg = p.lcdc0;
    let winy: i32 = if !p.win_on {
        -1
    } else {
        p.line as i32 - p.winy as i32
    };
    if winy < 0 && drawbg == false {
        assert(sc.bg_data_upto(d0, 160) =~= d0);
        assert(sc.bg_prio_upto(q0, 160) =~= q0);
        return ;
    }
    let bgy: u8 = p.scy.wrapping_add(p.line);
    let bgtiley: u16 = (bgy as u16 / 8) % 32;
    let mut x: usize = 0;
    assert(sc.bg_data_upto(d0, 0) =~= d0);
    assert(sc.bg_prio_upto(q0, 0) =~= q0);
    while x < SCREEN_W
        invariant
            0 <= x <= SCREEN_W,
            sc == (Scene { p, vram: vram@, voam: voam@, palb: palb@, pal0: pal0@, pal1: pal1@ }),
            p.line < 144,
            (p.tilebase == 0x8000 || p.tilebase == 0x8800),
            (p.bg_tilemap == 0x9800 || p.bg_tilemap == 0x9C00),
            (p.win_tilemap == 0x9800 || p.win_tilemap == 0x9C00),
            vram.len() >= 0x2000,
            palb.len() == 4,
            sc.bg_active(),
            winy == sc.win_row(),
            bgy == sc.bg_row(),
            bgtiley == sc.bg_row() / 8,
            data.len() == DATA_SIZE,
            bgprio.len() == SCREEN_W,
            data@ == sc.bg_data_upto(d0, x as int),
            bgprio@ == sc.bg_prio_upto(q0, x as int),
        decreases SCREEN_W - x,
    {
        match bg_pixel_at(p, vram, voam, palb, pal0, pal1, x, winy, bgy, bgtiley) {
            Some((color, prio)) => {
                bgprio[x] = prio;
                setcolor(data, p.line, x, color);
            },
            None => {},
        }
        x = x + 1;
        assert(data@ =~= sc.bg_data_upto(d0, x as int));
        assert(bgprio@ =~= sc.bg_prio_upto(q0, x as int));
    }
}

/// The shade and priority the background pass gives column `x`.
fn bg_pixel_at(
    p: LineParams,
    vram: &Vec<u8>,
    voam: &Vec<u8>,
    palb: &Vec<u8>,
    pal0: &Vec<u8>,
    pal1: &Vec<u8>,
    x: usize,
    winy: i32,
    bgy: u8,
    bgtiley: u16,
) -> (r: Option<(u8, PrioType)>)
    requires
        p.line < 144,
        (p.tilebase == 0x8000 || p.tilebase == 0x8800),
        (p.bg_tilemap == 0x9800 || p.bg_tilemap == 0x9C00),
        (p.win_tilemap == 0x9800 || p.win_tilemap == 0x9C00),
        vram.len() >= 0x2000,
        palb.len() == 4,
        x < 160,
        ({
            let sc = Scene { p, vram: vram@, voam: voam@, palb: palb@, pal0: pal0@, pal1: pal1@ };
            &&& sc.bg_active()
            &&& winy == sc.win_row()
            &&& bgy == sc.bg_row()
            &&& bgtiley == sc.bg_row() / 8
        }),
    ensures
        r == (Scene { p, vram: vram@, voam: voam@, palb: palb@, pal0: pal0@, pal1: pal1@ }).bg_pixel(
            x as int,
        ),
{
    let ghost sc = Scene { p, vram: vram@, voam: voam@, palb: palb@, pal0: pal0@, pal1: pal1@ };
    let drawbg = p.lcdc0;
    let winx: i32 = -((p.winx as i32) - 7) + (x as i32);
    let bgx: u32 = p.scx as u32 + x as u32;
    let fetch: Option<(u16, u16, u16, u16, u16)> = if winy >= 0 && winx >= 0 {
        Some(
            (
                p.win_tilemap,
                (winy as u16 / 8) % 32,
                winx as u16 / 8,
                winy as u16 % 8,
                winx as u16 % 8,
            ),
        )
    } else if drawbg {
        Some((p.bg_tilemap, bgtiley, (bgx as u16 / 8) % 32, bgy as u16 % 8, bgx as u16 % 8))
    } else {
        None
    };
    match fetch {
        Some((tilemapbase, tiley, tilex, pixely, pixelx)) => {
            assert(sc.bg_fetch(x as int) == Some(
                (tilemapbase + tiley * 32 + tilex, pixely as int, pixelx as int),
            ));
            let tilenr: u8 = vram[(tilemapbase + tiley * 32 + tilex - 0x8000) as usize];
            let tileaddress: u16 = p.tilebase + (if p.tilebase == 0x8000 {
                tilenr as u16
            } else if tilenr < 128 {
                tilenr as u16 + 128
            } else {
                tilenr as u16 - 128
            }) * 16;
            let a0 = tileaddress + (pixely * 2);
            let b1 = vram[(a0 - 0x8000) as usize];
            let b2 = vram[(a0 + 1 - 0x8000) as usize];
            let colnr = pixel_color_number(b1, b2, (7 - pixelx) as u32);
            let prio = if colnr == 0 {
                PrioType::Color0
            } else {
                PrioType::Normal
            };
            Some((palb[colnr], prio))
        },
        None => None,
    }
}

/// Draws the sprites that cross the current line, from sprite 39 down to
/// sprite 0 so that lower-numbered sprites end up on top.
fn draw_sprites(
    p: LineParams,
    vram: &Vec<u8>,
    voam: &Vec<u8>,
    palb: &Vec<u8>,
    pal0: &Vec<u8>,
    pal1: &Vec<u8>,
    data: &mut Vec<u8>,
    bgprio: &Vec<PrioType>,
)
    requires
        p.line < 144,
        (p.sprite_size == 8 || p.sprite_size == 16),
        vram.len() >= 0x2000,
        voam.len() == 0xA0,
        palb.len() == 4,
        pal0.len() == 4,
        pal1.len() == 4,
        bgprio.len() == SCREEN_W,
        old(data).len() == DATA_SIZE,
    ensures
        final(data)@ == (Scene { p, vram: vram@, voam: voam@, palb: palb@, pal0: pal0@, pal1: pal1@ }).sprites_data_from(bgprio@, old(data)@, 0),
        final(data).len() == DATA_SIZE,
{
    let ghost sc = Scene { p, vram: vram@, voam: voam@, palb: palb@, pal0: pal0@, pal1: pal1@ };
    let ghost d0 = data@;
    let ghost q = bgprio@;
    assert(sc.sprites_data_from(q, d0, 40) =~= d0);
    let mut index: usize = 0;
    while index < 40
        invariant
            0 <= index <= 40,
            sc == (Scene { p, vram: vram@, voam: voam@, palb: palb@, pal0: pal0@, pal1: pal1@ }),
            q == bgprio@,
            p.line < 144,
            (p.sprite_size == 8 || p.sprite_size == 16),
            vram.len() >= 0x2000,
            voam.len() == 0xA0,
            pal0.len() == 4,
            pal1.len() == 4,
            bgprio.len() == SCREEN_W,
            data.len() == DATA_SIZE,
            data@ == sc.sprites_data_from(q, d0, 40 - index),
        decreases 40 - index,
    {
        let i = 39 - index;
        let spriteaddr: usize = i * 4;
        let spritey: i32 = voam[spriteaddr] as i32 - 16;
        let spritex: i32 = voam[spriteaddr + 1] as i32 - 8;
        let t = voam[spriteaddr + 2];
        let tilenum: u16 = if p.sprite_size == 16 {
            (t / 2 * 2) as u16
        } else {
            t as u16
        };
        let flags: u8 = voam[spriteaddr + 3];
        let usepal1: bool = flags & 0x10 != 0;
        let xflip: bool = flags & 0x20 != 0;
        let yflip: bool = flags & 0x40 != 0;
        let belowbg: bool = flags & 0x80 != 0;
        let line = p.line as i32;
        let sprite_size = p.sprite_size as i32;
        if line < spritey || line >= spritey + sprite_size || spritex < -7 || spritex >= 160 {
            proof {
                assert forall|px: int| #[trigger] sc.sprite_pixel(q, i as int, px) is None by {}
                assert(sc.sprites_data_from(q, d0, i as int) =~= sc.sprites_data_from(
                    q,
                    d0,
                    i + 1,
                ));
            }
        } else {
            let tiley: u16 = if yflip {
                (sprite_size - 1 - (line - spritey)) as u16
            } else {
                (line - spritey) as u16
            };
            let tileaddress: usize = (tilenum * 16 + tiley * 2) as usize;
            let b1 = vram[tileaddress];
            let b2 = vram[tileaddress + 1];
            assert(data@ =~= sc.sprite_partial(q, d0, i as int, spritex as int, 0));
            let mut x: i32 = 0;
            while x < 8
                invariant
                    0 <= x <= 8,
                    sc == (Scene { p, vram: vram@, voam: voam@, palb: palb@, pal0: pal0@, pal1: pal1@ }),
                    q == bgprio@,
                    p.line < 144,
                    vram.len() >= 0x2000,
                    voam.len() == 0xA0,
                    pal0.len() == 4,
                    pal1.len() == 4,
                    bgprio.len() == SCREEN_W,
                    data.len() == DATA_SIZE,
                    0 <= i < 40,
                    -7 <= spritex < 160,
                    spritex == sc.oam(i as int, 1) - 8,
                    spritey == sc.oam(i as int, 0) - 16,
                    line == p.line,
                    sprite_size == p.sprite_size,
                    line >= spritey && line < spritey + sprite_size,
                    tiley == (if yflip {
                        sprite_size - 1 - (line - spritey)
                    } else {
                        line - spritey
                    }),
                    tilenum == (if p.sprite_size == 16 {
                        sc.oam(i as int, 2) as int / 2 * 2
                    } else {
                        sc.oam(i as int, 2) as int
                    }),
                    b1 == vram@[tilenum * 16 + tiley * 2],
                    b2 == vram@[tilenum * 16 + tiley * 2 + 1],
                    usepal1 == (sc.oam(i as int, 3) & 0x10 != 0),
                    xflip == (sc.oam(i as int, 3) & 0x20 != 0),
                    yflip == (sc.oam(i as int, 3) & 0x40 != 0),
                    belowbg == (sc.oam(i as int, 3) & 0x80 != 0),
                    data@ == sc.sprite_partial(q, d0, i as int, spritex as int, x as int),
                decreases 8 - x,
            {
                let px = spritex + x;
                if px >= 0 && px < 160 {
                    let xbit: u32 = if xflip {
                        x as u32
                    } else {
                        (7 - x) as u32
                    };
                    let colnr = pixel_color_number(b1, b2, xbit);
                    if colnr != 0 && !(belowbg && bgprio[px as usize] != PrioType::Color0) {
                        let color = if usepal1 {
                            pal1[colnr]
                        } else {
                            pal0[colnr]
                        };
                        assert(sc.sprite_pixel(q, i as int, px as int) == Some(color));
                        setcolor(data, p.line, px as usize, color);
                    } else {
                        assert(sc.sprite_pixel(q, i as int, px as int) is None);
                    }
                } else {
                    assert(sc.sprite_pixel(q, i as int, px as int) is None);
                }
                x = x + 1;
                assert(data@ =~= sc.sprite_partial(q, d0, i as int, spritex as int, x as int));
            }
            assert(sc.sprite_partial(q, d0, i as int, spritex as int, 8) =~= sc.sprites_data_from(
                q,
                d0,
                i as int,
            ));
        }
        index = index + 1;
    }
}

/// Toggling the X-flip bit keeps a sprite's other attribute bits.
proof fn lemma_flip_bits(f: u8)
    ensures
        ((f ^ 0x20) & 0x20 != 0) == !(f & 0x20 != 0),
        ((f ^ 0x20) & 0x10 != 0) == (f & 0x10 != 0),
        ((f ^ 0x20) & 0x40 != 0) == (f & 0x40 != 0),
        ((f ^ 0x20) & 0x80 != 0) == (f & 0x80 != 0),
{
    assert(((f ^ 0x20) & 0x20 != 0) == !(f & 0x20 != 0) && ((f ^ 0x20) & 0x10 != 0) == (f & 0x10
        != 0) && ((f ^ 0x20) & 0x40 != 0) == (f & 0x40 != 0) && ((f ^ 0x20) & 0x80 != 0) == (f
        & 0x80 != 0)) by (bit_vector);
}

/// X flip mirrors a sprite within its eight columns: the sprite drawn with
/// its X-flip attribute bit toggled puts at column `spritex + 7 - x` what
/// it put at column `spritex + x` (the background priority being the same
/// at both columns).
pub proof fn law_sprite_x_flip(s1: Scene, bgprio: Seq<PrioType>, i: int, x: int)
    requires
        s1.wf(),
        0 <= i < 40,
        0 <= x < 8,
        0 <= s1.oam(i, 1) as int - 8 + x < 160,
        0 <= s1.oam(i, 1) as int - 8 + 7 - x < 160,
        bgprio.len() == 160,
        bgprio[s1.oam(i, 1) as int - 8 + x] == bgprio[s1.oam(i, 1) as int - 8 + 7 - x],
    ensures
        ({
            let s2 = Scene { voam: s1.voam.update(i * 4 + 3, s1.oam(i, 3) ^ 0x20), ..s1 };
            let sx = s1.oam(i, 1) as int - 8;
            s1.sprite_pixel(bgprio, i, sx + x) == s2.sprite_pixel(bgprio, i, sx + 7 - x)
        }),
{
    let s2 = Scene { voam: s1.voam.update(i * 4 + 3, s1.oam(i, 3) ^ 0x20), ..s1 };
    lemma_flip_bits(s1.oam(i, 3));
    assert(s2.oam(i, 0) == s1.oam(i, 0));
    assert(s2.oam(i, 1) == s1.oam(i, 1));
    assert(s2.oam(i, 2) == s1.oam(i, 2));
    assert(s2.oam(i, 3) == s1.oam(i, 3) ^ 0x20);
}

/// An unflipped sprite is drawn with the leftmost pixel of its tile row
/// (bit 7 of both bit planes) at its left edge: column `spritex + x` takes
/// bit `7 - x`, and a flipped one takes bit `x`.
pub proof fn law_sprite_columns(s: Scene, bgprio: Seq<PrioType>, i: int, x: int)
    requires
        s.wf(),
        0 <= i < 40,
        0 <= x < 8,
        0 <= s.oam(i, 1) as int - 8 + x < 160,
        bgprio.len() == 160,
        s.oam(i, 3) & 0x80 == 0,
        s.oam(i, 0) as int - 16 <= s.p.line < s.oam(i, 0) as int - 16 + s.p.sprite_size,
        s.oam(i, 3) & 0x40 == 0,
        s.p.sprite_size == 8,
    ensures
        ({
            let row = s.oam(i, 2) as int * 16 + (s.p.line as int - (s.oam(i, 0) as int - 16)) * 2;
            let bit = if s.oam(i, 3) & 0x20 != 0 {
                x
            } else {
                7 - x
            };
            let lo = (s.vram[row] as int / pow2_8(bit)) % 2;
            let hi = (s.vram[row + 1] as int / pow2_8(bit)) % 2;
            let c = lo + 2 * hi;
            let pal = if s.oam(i, 3) & 0x10 != 0 {
                s.pal1
            } else {
                s.pal0
            };
            s.sprite_pixel(bgprio, i, s.oam(i, 1) as int - 8 + x) == if c == 0 {
                None
            } else {
                Some(pal[c])
            }
        }),
{
}

} // verus!
