//! The address space: cartridge ROM and RAM behind the bank controllers
//! (MBC1, MBC3 with its real-time clock, MBC5), work RAM, high RAM, the
//! divider and timer, the joypad, the interrupt registers, OAM DMA and the
//! colour model's VRAM DMA, with the GPU answering for its own ranges.
use vstd::prelude::*;
use crate::gpu::{GpuModel, GPU};
use vstd::string::StringExecFns;

verus! {

/// The divider (0xFF04) and the programmable timer (0xFF05..=0xFF07).
pub struct Timer {
    divider: u8,
    counter: u8,
    modulo: u8,
    enabled: bool,
    step: u32,
    internal_cnt: u32,
    internal_div: u32,
}

impl Timer {
    pub closed spec fn wf(self) -> bool {
        &&& (self.step == 16 || self.step == 64 || self.step == 256 || self.step == 1024)
        &&& self.internal_div < 256
    }

    pub closed spec fn initial() -> Timer {
        Timer {
            divider: 0,
            counter: 0,
            modulo: 0,
            enabled: false,
            step: 256,
            internal_cnt: 0,
            internal_div: 0,
        }
    }

    /// Clock selection as TAC reads it back: 1 for 16 clocks, 2 for 64,
    /// 3 for 256 and 0 for 1024.
    pub closed spec fn tac_clock(self) -> int {
        if self.step == 16 {
            1
        } else if self.step == 64 {
            2
        } else if self.step == 256 {
            3
        } else {
            0
        }
    }

    /// DIV, TIMA, TMA and TAC as read.
    pub closed spec fn read(self, addr: u16) -> u8 {
        if addr == 0xFF04 {
            self.divider
        } else if addr == 0xFF05 {
            self.counter
        } else if addr == 0xFF06 {
            self.modulo
        } else {
            ((if self.enabled {
                4int
            } else {
                0
            }) + self.tac_clock()) as u8
        }
    }

    /// Writing DIV clears it; TIMA and TMA take the value; TAC sets the
    /// enable bit (bit 2) and the clock (bits 1..0).
    pub closed spec fn write(self, addr: u16, val: u8) -> Timer {
        if addr == 0xFF04 {
            Timer { divider: 0, ..self }
        } else if addr == 0xFF05 {
            Timer { counter: val, ..self }
        } else if addr == 0xFF06 {
            Timer { modulo: val, ..self }
        } else {
            Timer {
                enabled: val % 8 >= 4,
                step: if val % 4 == 1 {
                    16
                } else if val % 4 == 2 {
                    64
                } else if val % 4 == 3 {
                    256
                } else {
                    1024
                },
                ..self
            }
        }
    }

    /// The divider after `d` pending clocks: it advances once per 256,
    /// wrapping, and fewer than 256 clocks stay pending.
    pub closed spec fn run_div(divider: u8, d: u32) -> (u8, u32)
        decreases d,
    {
        if d < 256 {
            (divider, d)
        } else {
            Timer::run_div(((divider + 1) % 256) as u8, (d - 256) as u32)
        }
    }

    /// The counter after `cnt` pending clocks: it advances once per `step`;
    /// when it wraps it reloads from the modulo and stops there with the
    /// interrupt bit (0x04), the clocks still pending kept for later.
    pub closed spec fn run_counter(counter: u8, modulo: u8, cnt: u32, step: u32) -> (u8, u32, u8)
        decreases cnt,
    {
        if step == 0 || cnt < step {
            (counter, cnt, 0)
        } else if (counter + 1) % 256 == 0 {
            (modulo, cnt, 4)
        } else {
            Timer::run_counter(((counter + 1) % 256) as u8, modulo, (cnt - step) as u32, step)
        }
    }

    /// Whether `ticks` more clocks fit the internal counters.
    pub closed spec fn cycle_ok(self, ticks: u32) -> bool {
        &&& self.internal_div + ticks <= u32::MAX
        &&& (self.enabled ==> self.internal_cnt + ticks <= u32::MAX)
    }

    /// The timer after `ticks` clocks, and the interrupt bits it raises.
    pub closed spec fn cycle(self, ticks: u32) -> (Timer, u8) {
        let (div, idiv) = Timer::run_div(self.divider, (self.internal_div + ticks) as u32);
        let t = Timer { divider: div, internal_div: idiv, ..self };
        if self.enabled {
            let (c, cnt, irq) = Timer::run_counter(
                self.counter,
                self.modulo,
                (self.internal_cnt + ticks) as u32,
                self.step,
            );
            (Timer { counter: c, internal_cnt: cnt, ..t }, irq)
        } else {
            (t, 0)
        }
    }

    pub fn new() -> (r: Self)
        ensures
            r == Timer::initial(),
            r.wf(),
    {
        Timer {
            divider: 0,
            counter: 0,
            modulo: 0,
            enabled: false,
            step: 256,
            internal_cnt: 0,
            internal_div: 0,
        }
    }

    /// Reads DIV, TIMA, TMA or TAC.
    pub fn rb(&mut self, addr: u16) -> (r: u8)
        requires
            0xFF04 <= addr <= 0xFF07,
        ensures
            r == old(self).read(addr),
            *final(self) == *old(self),
    {
        match addr {
            0xFF04 => self.divider,
            0xFF05 => self.counter,
            0xFF06 => self.modulo,
            _ => {
                (if self.enabled {
                    0x4
                } else {
                    0
                }) + (match self.step {
                    16 => 1,
                    64 => 2,
                    256 => 3,
                    _ => 0,
                })
            },
        }
    }

    /// Writes DIV, TIMA, TMA or TAC.
    pub fn wb(&mut self, addr: u16, val: u8)
        requires
            0xFF04 <= addr <= 0xFF07,
        ensures
            *final(self) == old(self).write(addr, val),
            old(self).wf() ==> final(self).wf(),
    {
        match addr {
            0xFF04 => {
                self.divider = 0;
            },
            0xFF05 => {
                self.counter = val;
            },
            0xFF06 => {
                self.modulo = val;
            },
            _ => {
                self.enabled = val % 8 >= 4;
                self.step =
                match val % 4 {
                    1 => 16,
                    2 => 64,
                    3 => 256,
                    _ => 1024,
                };
            },
        }
    }

    /// Whether `ticks` more clocks fit the internal counters.
    pub fn can_cycle(&self, ticks: u32) -> (r: bool)
        ensures
            r == self.cycle_ok(ticks),
    {
        ticks <= u32::MAX - self.internal_div && (!self.enabled || ticks <= u32::MAX
            - self.internal_cnt)
    }

    /// Advances the divider and, when enabled, the counter by `ticks`
    /// clocks; returns the interrupt bits raised (0x04 on overflow).
    pub fn do_cycle(&mut self, ticks: u32) -> (r: u8)
        requires
            old(self).wf(),
            old(self).cycle_ok(ticks),
        ensures
            (*final(self), r) == old(self).cycle(ticks),
            final(self).wf(),
    {
        let (div, idiv) = run_div_exec(self.divider, self.internal_div + ticks);
        self.divider = div;
        self.internal_div = idiv;
        if self.enabled {
            let (counter, cnt, irq) = run_counter_exec(
                self.counter,
                self.modulo,
                self.internal_cnt + ticks,
                self.step,
            );
            self.counter = counter;
            self.internal_cnt = cnt;
            irq
        } else {
            0x0
        }
    }
}

/// Advances the divider once per 256 pending clocks.
fn run_div_exec(divider: u8, d: u32) -> (r: (u8, u32))
    ensures
        r == Timer::run_div(divider, d),
        r.1 < 256,
{
    let mut div = divider;
    let mut idiv = d;
    while idiv >= 256
        invariant
            Timer::run_div(div, idiv) == Timer::run_div(divider, d),
        decreases idiv,
    {
        div = div.wrapping_add(1);
        idiv -= 256;
    }
    (div, idiv)
}

/// Advances the counter once per `step` pending clocks until the clocks
/// run out or it wraps.
fn run_counter_exec(counter: u8, modulo: u8, cnt: u32, step: u32) -> (r: (u8, u32, u8))
    requires
        step > 0,
    ensures
        r == Timer::run_counter(counter, modulo, cnt, step),
{
    let mut c = counter;
    let mut left = cnt;
    while left >= step
        invariant
            step > 0,
            Timer::run_counter(c, modulo, left, step) == Timer::run_counter(
                counter,
                modulo,
                cnt,
                step,
            ),
        decreases left,
    {
        c = c.wrapping_add(1);
        if c == 0 {
            return (modulo, left, 0x04);
        }
        left -= step;
    }
    (c, left, 0)
}

/// The joypad: the two button rows (active low) and the row selection.
pub struct Key {
    pub rows: [u8; 2],
    column: u8,
}

impl Key {
    pub closed spec fn initial() -> Key {
        Key { rows: [0xFu8, 0xFu8], column: 0 }
    }

    /// Button row `i` (0 or 1).
    pub closed spec fn row(self, i: int) -> u8 {
        self.rows[i]
    }

    /// P1 as read: the selected row, or 0 when none or both are selected.
    pub closed spec fn read(self) -> u8 {
        if self.column == 0x10 {
            self.rows[0]
        } else if self.column == 0x20 {
            self.rows[1]
        } else {
            0
        }
    }

    /// Writing P1 selects rows with bits 5..4.
    pub closed spec fn write(self, value: u8) -> Key {
        Key { column: value & 0x30, ..self }
    }

    pub fn new() -> (r: Self)
        ensures
            r == Key::initial(),
    {
        Key { rows: [0xF, 0xF], column: 0 }
    }

    pub fn rb(&self) -> (r: u8)
        ensures
            r == self.read(),
    {
        match self.column {
            0x10 => self.rows[0],
            0x20 => self.rows[1],
            _ => 0,
        }
    }

    pub fn wb(&mut self, value: u8)
        ensures
            *final(self) == old(self).write(value),
    {
        self.column = value & 0x30;
    }
}

/// CPU clock speed of the colour model.
#[derive(PartialEq, Eq, Copy, Clone, Structural, Debug)]
pub enum GbSpeed {
    Single,
    Double,
}

/// Which hardware the emulation behaves as.
#[derive(PartialEq, Eq, Copy, Clone, Structural, Debug)]
pub enum GbMode {
    Classic,
    Color,
    ColorAsClassic,
}

/// Memory bank controller state, including the MBC3 real-time clock:
/// seconds, minutes, hours, the low 8 bits of the day counter, and the
/// day-high register (bit 0 day bit 8, bit 6 halt, bit 7 day overflow).
#[derive(Clone, Copy)]
pub struct MBC {
    rombank: usize,
    rambank: usize,
    ram_on: bool,
    mode: u8,
    rtc_sec: u8,
    rtc_min: u8,
    rtc_hour: u8,
    rtc_day_lo: u8,
    rtc_day_hi: u8,
    rtc_lock: bool,
    rtc_zero: Option<u64>,
}

impl MBC {
    pub closed spec fn initial() -> MBC {
        MBC {
            rombank: 0,
            rambank: 0,
            ram_on: false,
            mode: 0,
            rtc_sec: 0,
            rtc_min: 0,
            rtc_hour: 0,
            rtc_day_lo: 0,
            rtc_day_hi: 0,
            rtc_lock: false,
            rtc_zero: Some(0),
        }
    }

    /// Clock register `i` (0 seconds .. 4 day-high).
    pub closed spec fn rtc_get(self, i: int) -> u8 {
        if i == 0 {
            self.rtc_sec
        } else if i == 1 {
            self.rtc_min
        } else if i == 2 {
            self.rtc_hour
        } else if i == 3 {
            self.rtc_day_lo
        } else {
            self.rtc_day_hi
        }
    }

    pub closed spec fn rtc_set(self, i: int, v: u8) -> MBC {
        if i == 0 {
            MBC { rtc_sec: v, ..self }
        } else if i == 1 {
            MBC { rtc_min: v, ..self }
        } else if i == 2 {
            MBC { rtc_hour: v, ..self }
        } else if i == 3 {
            MBC { rtc_day_lo: v, ..self }
        } else {
            MBC { rtc_day_hi: v, ..self }
        }
    }

    /// Seconds that the clock registers hold in all.
    pub closed spec fn rtc_seconds(self) -> int {
        self.rtc_sec + self.rtc_min * 60 + self.rtc_hour * 3600 + ((self.rtc_day_hi % 2) * 256
            + self.rtc_day_lo) * 86400
    }

    /// The clock registers latched from `diff` elapsed seconds.
    pub closed spec fn rtc_latched(self, diff: u64) -> MBC {
        let days = diff / 86400;
        MBC {
            rtc_sec: (diff % 60) as u8,
            rtc_min: ((diff / 60) % 60) as u8,
            rtc_hour: ((diff / 3600) % 24) as u8,
            rtc_day_lo: (days % 256) as u8,
            rtc_day_hi: if days >= 512 {
                ((self.rtc_day_hi & 0xFE) | ((days / 256) % 2) as u8) | 0x80
            } else {
                (self.rtc_day_hi & 0xFE) | ((days / 256) % 2) as u8
            },
            ..self
        }
    }

    pub fn new() -> (r: Self)
        ensures
            r == MBC::initial(),
    {
        MBC {
            rombank: 0,
            rambank: 0,
            ram_on: false,
            mode: 0,
            rtc_sec: 0,
            rtc_min: 0,
            rtc_hour: 0,
            rtc_day_lo: 0,
            rtc_day_hi: 0,
            rtc_lock: false,
            rtc_zero: Some(0),
        }
    }
}

/// State of a VRAM DMA transfer.
#[derive(PartialEq, Eq, Copy, Clone, Structural)]
enum DMAType {
    NoDMA,
    GDMA,
    HDMA,
}

/// The VRAM DMA registers (HDMA1..HDMA5) and the transfer in progress.
pub struct Hdma {
    src_hi: u8,
    src_lo: u8,
    dst_hi: u8,
    dst_lo: u8,
    src: u16,
    dst: u16,
    len: u8,
    status: DMAType,
}

/// Bank offsets into work RAM, cartridge RAM and ROM.
pub struct Banks {
    wram_bank: usize,
    ram_offs: usize,
    rom_offs: usize,
}

/// # Memory map
///
/// 0x0000 - 0x3FFF -> 16 KiB ROM bank 00 (the boot ROM over 0x0000 - 0x00FF
/// while it runs)
///
/// 0x4000 - 0x7FFF -> 16 KiB ROM bank 01-NN
///
/// 0x8000 - 0x9FFF -> 8 KiB VRAM
///
/// 0xA000 - 0xBFFF -> 8 KiB external RAM (on the cartridge)
///
/// 0xC000 - 0xCFFF -> 4 KiB work RAM bank 0
///
/// 0xD000 - 0xDFFF -> 4 KiB work RAM bank 1-N, selected through 0xFF70
///
/// 0xE000 - 0xFDFF -> echo RAM, a mirror of 0xC000 - 0xDDFF
///
/// 0xFE00 - 0xFE9F -> OAM (object attribute memory)
///
/// 0xFEA0 - 0xFEFF -> not usable (reads 0)
///
/// 0xFF00 - 0xFF7F -> I/O registers
///
/// 0xFF80 - 0xFFFE -> high RAM
///
/// 0xFFFF -> interrupt enable
pub struct Memory {
    pub gpu: GPU,
    pub in_bios: bool,
    /// The boot ROM (available to the cartridge after boot).
    pub bios: Vec<u8>,
    /// The ROM image: a zeroed area with the cartridge appended by `load_rom`.
    pub rom: Vec<u8>,
    wram: Vec<u8>,
    /// External RAM (on the cartridge).
    pub eram: Vec<u8>,
    zram: Vec<u8>,
    hdma: Hdma,
    banks: Banks,
    mbc: MBC,
    pub carttype: u8,
    pub interrupt_flags: u8,
    pub ie: u8,
    pub timer: Timer,
    pub keys: Key,
    pub pc: u16,
    pub rom_name: String,
    pub saved: bool,
    pub gbmode: GbMode,
    pub gbspeed: GbSpeed,
    pub speed_switch_req: bool,
    /// The wall clock that the MBC3 real-time clock reads, in whole seconds
    /// since the Unix epoch; `None` stands for a clock set before the epoch.
    /// The host keeps it current.
    pub rtc_now: Option<u64>,
    /// External RAM as it stood when the cartridge first disabled it: the
    /// contents to be written to the save file, taken by the host.
    pub sram_snapshot: Option<Vec<u8>>,
}

/// The abstract state of the address space.
pub ghost struct MemoryModel {
    pub gpu: GpuModel,
    pub in_bios: bool,
    pub bios: Seq<u8>,
    pub rom: Seq<u8>,
    pub wram: Seq<u8>,
    pub eram: Seq<u8>,
    pub zram: Seq<u8>,
    pub hdma: Hdma,
    pub banks: Banks,
    pub mbc: MBC,
    pub carttype: u8,
    pub interrupt_flags: u8,
    pub ie: u8,
    pub timer: Timer,
    pub keys: Key,
    pub pc: u16,
    pub rom_name: Seq<char>,
    pub saved: bool,
    pub gbmode: GbMode,
    pub gbspeed: GbSpeed,
    pub speed_switch_req: bool,
    pub rtc_now: Option<u64>,
    pub sram_snapshot: Option<Seq<u8>>,
}

impl View for Memory {
    type V = MemoryModel;

    closed spec fn view(&self) -> MemoryModel {
        MemoryModel {
            gpu: self.gpu@,
            in_bios: self.in_bios,
            bios: self.bios@,
            rom: self.rom@,
            wram: self.wram@,
            eram: self.eram@,
            zram: self.zram@,
            hdma: self.hdma,
            banks: self.banks,
            mbc: self.mbc,
            carttype: self.carttype,
            interrupt_flags: self.interrupt_flags,
            ie: self.ie,
            timer: self.timer,
            keys: self.keys,
            pc: self.pc,
            rom_name: self.rom_name@,
            saved: self.saved,
            gbmode: self.gbmode,
            gbspeed: self.gbspeed,
            speed_switch_req: self.speed_switch_req,
            rtc_now: self.rtc_now,
            sram_snapshot: match self.sram_snapshot {
                Some(v) => Some(v@),
                None => None,
            },
        }
    }
}

/// MBC1 cartridge types.
pub open spec fn is_mbc1(c: u8) -> bool {
    1 <= c <= 3
}

/// MBC3 cartridge types (with and without the real-time clock).
pub open spec fn is_mbc3(c: u8) -> bool {
    0x0F <= c <= 0x13
}

/// MBC5 cartridge types.
pub open spec fn is_mbc5(c: u8) -> bool {
    0x19 <= c <= 0x1E
}

/// Seconds from `zero` to `now` on the clock, 0 when the clock is behind.
pub open spec fn elapsed(now: Option<u64>, zero: u64) -> u64 {
    match now {
        Some(n) => if n >= zero {
            (n - zero) as u64
        } else {
            0
        },
        None => 0,
    }
}

impl MemoryModel {
    pub closed spec fn wf(self) -> bool {
        &&& self.gpu.wf()
        &&& self.bios.len() == 0xFFFF
        &&& self.wram.len() == 0x8000
        &&& self.zram.len() == 0x80
        &&& 1 <= self.banks.wram_bank <= 15
        &&& self.banks.rom_offs <= 0x1FF * 0x4000
        &&& self.banks.ram_offs <= 0xFF * 0x2000
        &&& self.mbc.rombank <= 0x1FF
        &&& self.mbc.rambank <= 0xFF
        &&& self.timer.wf()
        &&& self.hdma.dst_hi < 0x20
    }

    // ---- reads ----

    /// Index in the ROM image that an address below 0x8000 reads.
    pub closed spec fn rom_index(self, a: u16) -> int {
        if a < 0x4000 {
            a as int
        } else {
            self.banks.rom_offs + a as int % 0x4000
        }
    }

    /// Index in external RAM that an address in 0xA000..=0xBFFF reaches.
    pub closed spec fn eram_index(self, a: u16) -> int {
        self.banks.ram_offs + a as int % 0x2000
    }

    /// Addresses that read back what was written, byte for byte: video RAM,
    /// work RAM (and its echo) in a bank that exists, OAM, high RAM and IE.
    pub open spec fn plain(self, a: u16) -> bool {
        ||| 0x8000 <= a < 0xA000
        ||| (0xC000 <= a < 0xFE00 && self.work_index(a) < 0x8000)
        ||| 0xFE00 <= a < 0xFEA0
        ||| 0xFF80 <= a
    }

    /// Whether two addresses reach the same byte: the same address, or two
    /// work RAM addresses (one an echo of the other) with the same index.
    pub open spec fn same_cell(self, a: u16, b: u16) -> bool {
        ||| a == b
        ||| (0xC000 <= a < 0xFE00 && 0xC000 <= b < 0xFE00 && self.work_index(a)
            == self.work_index(b))
    }

    /// The work RAM bank that 0xD000..=0xDFFF (and its echo) reach.
    pub closed spec fn wram_bank(self) -> int {
        self.banks.wram_bank as int
    }

    /// Index in work RAM that an address in 0xC000..=0xFDFF reaches: bank 0
    /// for the first 4 KiB of each 8 KiB, the selected bank for the second.
    pub open spec fn work_index(self, a: u16) -> int {
        if a as int % 0x2000 < 0x1000 {
            a as int % 0x1000
        } else {
            self.wram_bank() * 0x1000 + a as int % 0x1000
        }
    }

    /// Whether external RAM accesses reach the RAM itself (rather than the
    /// clock registers or nothing).
    pub closed spec fn eram_plain(self) -> bool {
        ||| is_mbc1(self.carttype)
        ||| is_mbc5(self.carttype)
        ||| (is_mbc3(self.carttype) && self.mbc.rambank <= 3)
    }

    /// Whether external RAM accesses reach the MBC3 clock registers.
    pub closed spec fn eram_rtc(self) -> bool {
        is_mbc3(self.carttype) && self.mbc.rambank > 3
    }

    /// Whether external RAM is enabled.
    pub closed spec fn ram_enabled(self) -> bool {
        self.mbc.ram_on
    }

    /// Where in the ROM image the bank that 0x4000..=0x7FFF read starts
    /// (the selected bank times 0x4000 once a bank has been selected).
    pub closed spec fn rom_offset(self) -> int {
        self.banks.rom_offs as int
    }

    /// The ROM bank that 0x4000..=0x7FFF read.
    pub closed spec fn rom_bank(self) -> int {
        self.mbc.rombank as int
    }

    pub closed spec fn read_eram_ok(self, a: u16) -> bool {
        self.mbc.ram_on ==> (self.eram_plain() ==> self.eram_index(a) < self.eram.len()) && (
        self.eram_rtc() ==> 8 <= self.mbc.rambank <= 12)
    }

    pub closed spec fn read_eram(self, a: u16) -> u8 {
        if !self.mbc.ram_on {
            0
        } else if self.eram_plain() {
            self.eram[self.eram_index(a)]
        } else if self.eram_rtc() {
            self.mbc.rtc_get(self.mbc.rambank - 8)
        } else {
            0
        }
    }

    /// HDMA1..HDMA5 as read.
    pub closed spec fn hdma_read(self, a: u16) -> u8 {
        let h = self.hdma;
        if a == 0xFF51 {
            h.src_hi
        } else if a == 0xFF52 {
            h.src_lo
        } else if a == 0xFF53 {
            h.dst_hi
        } else if a == 0xFF54 {
            h.dst_lo
        } else {
            h.len | (if h.status == DMAType::NoDMA {
                0x80u8
            } else {
                0
            })
        }
    }

    /// KEY1: bit 7 the current speed, bit 0 a pending switch.
    pub closed spec fn speed_byte(self) -> u8 {
        ((if self.gbspeed == GbSpeed::Double {
            0x80int
        } else {
            0
        }) + (if self.speed_switch_req {
            1int
        } else {
            0
        })) as u8
    }

    /// The I/O registers 0xFF00..=0xFF7F as read.
    pub closed spec fn read_io(self, a: u16) -> u8 {
        let lo = a % 0x100;
        if lo < 0x10 {
            if lo == 0 {
                self.keys.read()
            } else if 4 <= lo <= 7 {
                self.timer.read(a)
            } else if lo == 0xF {
                self.interrupt_flags
            } else {
                0
            }
        } else if lo == 0x4D {
            self.speed_byte()
        } else if 0x40 <= lo <= 0x4F {
            self.gpu.read(a)
        } else if 0x51 <= lo <= 0x55 {
            self.hdma_read(a)
        } else if 0x68 <= lo <= 0x6B {
            self.gpu.read(a)
        } else if lo == 0x70 {
            self.banks.wram_bank as u8
        } else {
            0
        }
    }

    // ---- writes ----

    /// The ROM bank selected, with the offset reads of 0x4000..=0x7FFF use.
    pub closed spec fn with_rombank(self, bank: usize) -> MemoryModel {
        MemoryModel {
            mbc: MBC { rombank: bank, ..self.mbc },
            banks: Banks { rom_offs: (bank * 0x4000) as usize, ..self.banks },
            ..self
        }
    }

    /// The RAM bank selected, with the offset external RAM accesses use.
    pub closed spec fn with_rambank(self, bank: usize) -> MemoryModel {
        MemoryModel {
            mbc: MBC { rambank: bank, ..self.mbc },
            banks: Banks { ram_offs: (bank * 0x2000) as usize, ..self.banks },
            ..self
        }
    }

    /// 0x0000..=0x1FFF: RAM enable (0x0A enables). Disabling it for the
    /// first time takes a copy of external RAM for the save file.
    #[verifier::opaque]
    pub closed spec fn write_ram_enable(self, v: u8) -> MemoryModel {
        let c = self.carttype;
        if is_mbc1(c) || is_mbc3(c) || is_mbc5(c) {
            let on = v == 0x0A;
            let m = MemoryModel { mbc: MBC { ram_on: on, ..self.mbc }, ..self };
            if !on && !self.saved {
                MemoryModel { saved: true, sram_snapshot: Some(self.eram), ..m }
            } else {
                m
            }
        } else {
            self
        }
    }

    /// 0x2000..=0x3FFF: ROM bank selection.
    #[verifier::opaque]
    pub closed spec fn write_rom_bank(self, a: u16, v: u8) -> MemoryModel {
        let c = self.carttype;
        if is_mbc1(c) {
            let low: usize = if v & 0x1F == 0 {
                1
            } else {
                (v & 0x1F) as usize
            };
            self.with_rombank((self.mbc.rombank & 0x60) | low)
        } else if is_mbc3(c) {
            self.with_rombank(
                if v & 0x7F == 0 {
                    1
                } else {
                    (v & 0x7F) as usize
                },
            )
        } else if is_mbc5(c) {
            if a < 0x3000 {
                self.with_rombank((self.mbc.rombank & 0x100) | (v as usize))
            } else {
                self.with_rombank((self.mbc.rombank & 0xFF) | (((v & 1) as usize) << 8usize))
            }
        } else {
            self
        }
    }

    /// 0x4000..=0x5FFF: RAM bank (or, for MBC1 in ROM mode, the upper ROM
    /// bank bits).
    #[verifier::opaque]
    pub closed spec fn write_ram_bank(self, v: u8) -> MemoryModel {
        let c = self.carttype;
        if is_mbc1(c) {
            if self.mbc.mode != 0 {
                self.with_rambank((v & 3) as usize)
            } else {
                self.with_rombank((self.mbc.rombank & 0x1F) | (((v & 3) as usize) << 5usize))
            }
        } else if is_mbc3(c) {
            self.with_rambank(v as usize)
        } else if is_mbc5(c) {
            self.with_rambank((v & 0x0F) as usize)
        } else {
            self
        }
    }

    /// The clock registers latched on an MBC3 (0 then 1 written to
    /// 0x6000..=0x7FFF), when the clock runs; on a day counter past 511 the
    /// clock is rebased so the registers count from the current time.
    pub closed spec fn latched(self) -> MBC {
        let m = self.mbc;
        let t = m.rtc_zero.unwrap();
        let l = m.rtc_latched(elapsed(self.rtc_now, t));
        if elapsed(self.rtc_now, t) / 86400 >= 512 {
            MBC { rtc_zero: Some((self.rtc_now.unwrap() - l.rtc_seconds()) as u64), ..l }
        } else {
            l
        }
    }

    /// Whether a latch goes ahead: the clock is set and not halted.
    pub closed spec fn latch_runs(self) -> bool {
        &&& self.mbc.rtc_zero is Some
        &&& self.mbc.rtc_day_hi & 0x40 != 0x40
    }

    /// 0x6000..=0x7FFF: MBC1 banking mode, or the MBC3 clock latch.
    #[verifier::opaque]
    pub closed spec fn write_latch(self, v: u8) -> MemoryModel {
        let c = self.carttype;
        if is_mbc1(c) {
            MemoryModel { mbc: MBC { mode: v & 1, ..self.mbc }, ..self }
        } else if is_mbc3(c) {
            if v == 0 {
                MemoryModel { mbc: MBC { rtc_lock: false, ..self.mbc }, ..self }
            } else if v == 1 {
                if self.mbc.rtc_lock {
                    self
                } else if !self.latch_runs() {
                    self
                } else {
                    MemoryModel { mbc: MBC { rtc_lock: true, ..self.latched() }, ..self }
                }
            } else {
                self
            }
        } else {
            self
        }
    }

    /// Writes to the cartridge's control ranges below 0x8000.
    pub closed spec fn write_control(self, a: u16, v: u8) -> MemoryModel {
        if a < 0x2000 {
            self.write_ram_enable(v)
        } else if a < 0x4000 {
            self.write_rom_bank(a, v)
        } else if a < 0x6000 {
            self.write_ram_bank(v)
        } else {
            self.write_latch(v)
        }
    }

    /// The clock registers after register `rambank - 8` is written, the
    /// clock rebased so they count from the current time.
    pub closed spec fn rtc_written(self, v: u8) -> MBC {
        let m = self.mbc.rtc_set(self.mbc.rambank - 8, v);
        if m.rtc_zero is Some {
            MBC { rtc_zero: Some((self.rtc_now.unwrap() - m.rtc_seconds()) as u64), ..m }
        } else {
            m
        }
    }

    pub closed spec fn write_eram_ok(self, a: u16, v: u8) -> bool {
        self.mbc.ram_on ==> (self.eram_plain() ==> self.eram_index(a) < self.eram.len()) && (
        self.eram_rtc() ==> (8 <= self.mbc.rambank <= 12 && (self.mbc.rtc_zero is Some ==> (
        self.rtc_now is Some && self.rtc_now.unwrap() >= self.mbc.rtc_set(
            self.mbc.rambank - 8,
            v,
        ).rtc_seconds()))))
    }

    /// 0xA000..=0xBFFF: external RAM, or an MBC3 clock register.
    #[verifier::opaque]
    pub closed spec fn write_eram(self, a: u16, v: u8) -> MemoryModel {
        if !self.mbc.ram_on {
            self
        } else if self.eram_plain() {
            MemoryModel { eram: self.eram.update(self.eram_index(a), v), ..self }
        } else if self.eram_rtc() {
            MemoryModel { mbc: self.rtc_written(v), ..self }
        } else {
            self
        }
    }

    /// The address OAM DMA copies from for sprite byte `i`.
    pub open spec fn oam_source(v: u8, i: int) -> u16 {
        (v as int * 256 + i) as u16
    }

    pub closed spec fn oam_dma_ok(self, v: u8) -> bool {
        forall|i: int| 0 <= i < 0xA0 ==> #[trigger] self.read_ok(MemoryModel::oam_source(v, i))
    }

    /// OAM DMA (0xFF46): the 160 bytes from `v * 0x100` on are copied to OAM.
    pub closed spec fn oam_dma(self, v: u8) -> MemoryModel {
        MemoryModel {
            gpu: GpuModel {
                voam: Seq::new(0xA0, |i: int| self.read(MemoryModel::oam_source(v, i))),
                ..self.gpu
            },
            ..self
        }
    }

    /// HDMA source and destination as HDMA1..HDMA4 set them.
    pub closed spec fn hdma_source(self) -> int {
        self.hdma.src_hi * 256 + self.hdma.src_lo
    }

    pub closed spec fn hdma_dest(self) -> int {
        self.hdma.dst_hi * 256 + self.hdma.dst_lo + 0x8000
    }

    pub closed spec fn hdma_write_ok(self, a: u16, v: u8) -> bool {
        (a == 0xFF55 && self.hdma.status != DMAType::HDMA) ==> (self.hdma_source() <= 0x7FF0 || (
        0xA000 <= self.hdma_source() <= 0xDFF0))
    }

    /// HDMA1..HDMA5 written: addresses are masked to their 16-byte
    /// alignment; HDMA5 starts a transfer (bit 7: during H-blanks, else at
    /// once) of `(v & 0x7F) + 1` rows, or stops a running H-blank one.
    #[verifier::opaque]
    pub closed spec fn hdma_write(self, a: u16, v: u8) -> MemoryModel {
        let h = self.hdma;
        let h2 = if a == 0xFF51 {
            Hdma { src_hi: v, ..h }
        } else if a == 0xFF52 {
            Hdma { src_lo: v & 0xF0, ..h }
        } else if a == 0xFF53 {
            Hdma { dst_hi: v & 0x1F, ..h }
        } else if a == 0xFF54 {
            Hdma { dst_lo: v & 0xF0, ..h }
        } else if h.status == DMAType::HDMA {
            if v & 0x80 == 0 {
                Hdma { status: DMAType::NoDMA, ..h }
            } else {
                h
            }
        } else {
            Hdma {
                src: self.hdma_source() as u16,
                dst: self.hdma_dest() as u16,
                len: v & 0x7F,
                status: if v & 0x80 == 0x80 {
                    DMAType::HDMA
                } else {
                    DMAType::GDMA
                },
                ..h
            }
        };
        MemoryModel { hdma: h2, ..self }
    }

    /// Work RAM bank selection (0xFF70): bank 0 selects bank 1.
    pub closed spec fn wram_bank_for(v: u8) -> usize {
        if v & 0x0F == 0 {
            1
        } else {
            (v & 0x0F) as usize
        }
    }

    /// The I/O registers 0xFF00..=0xFF7F written.
    #[verifier::opaque]
    pub closed spec fn write_io(self, a: u16, v: u8) -> MemoryModel {
        let lo = a % 0x100;
        if lo < 0x10 {
            if lo == 0 {
                MemoryModel { keys: self.keys.write(v), ..self }
            } else if 4 <= lo <= 7 {
                MemoryModel { timer: self.timer.write(a, v), ..self }
            } else if lo == 0xF {
                MemoryModel { interrupt_flags: v, ..self }
            } else {
                self
            }
        } else if lo < 0x40 {
            self
        } else if lo == 0x46 {
            self.oam_dma(v)
        } else if lo == 0x4D {
            if v & 1 == 1 {
                MemoryModel { speed_switch_req: true, ..self }
            } else {
                self
            }
        } else if lo < 0x50 {
            MemoryModel { gpu: self.gpu.write(a, v), ..self }
        } else if 0x51 <= lo <= 0x55 {
            self.hdma_write(a, v)
        } else if 0x68 <= lo <= 0x6B {
            MemoryModel { gpu: self.gpu.write(a, v), ..self }
        } else if lo == 0x70 {
            MemoryModel {
                banks: Banks { wram_bank: MemoryModel::wram_bank_for(v), ..self.banks },
                ..self
            }
        } else {
            self
        }
    }

    /// The writes that are carried out (the others stop the machine): a
    /// work RAM bank past the end of work RAM is never written.
    pub closed spec fn write_ok(self, a: u16, v: u8) -> bool {
        if 0xA000 <= a < 0xC000 {
            self.write_eram_ok(a, v)
        } else if 0xC000 <= a < 0xFE00 {
            self.work_index(a) < self.wram.len()
        } else if a == 0xFF46 {
            self.oam_dma_ok(v)
        } else if 0xFF51 <= a <= 0xFF55 {
            self.hdma_write_ok(a, v)
        } else {
            true
        }
    }

    /// The state after writing `v` at `a`.
    pub closed spec fn write(self, a: u16, v: u8) -> MemoryModel {
        if a < 0x8000 {
            self.write_control(a, v)
        } else if a < 0xA000 {
            MemoryModel { gpu: self.gpu.write(a, v), ..self }
        } else if a < 0xC000 {
            self.write_eram(a, v)
        } else if a < 0xFE00 {
            MemoryModel { wram: self.wram.update(self.work_index(a), v), ..self }
        } else if a < 0xFF00 {
            MemoryModel { gpu: self.gpu.write(a, v), ..self }
        } else if a == 0xFFFF {
            MemoryModel { ie: v, ..self }
        } else if a >= 0xFF80 {
            MemoryModel { zram: self.zram.update(a as int % 0x80, v), ..self }
        } else {
            self.write_io(a, v)
        }
    }

    // ---- VRAM DMA ----

    /// The byte transfers `0..n` of a VRAM DMA row, one after another: byte
    /// `j` is read at `src + j` and written through the GPU at `dst + j`.
    pub closed spec fn row_copy(self, n: nat) -> MemoryModel
        decreases n,
    {
        if n == 0 {
            self
        } else {
            let m = self.row_copy((n - 1) as nat);
            let j = n - 1;
            MemoryModel {
                gpu: m.gpu.write(
                    (self.hdma.dst + j) as u16,
                    m.read((self.hdma.src + j) as u16),
                ),
                ..m
            }
        }
    }

    pub closed spec fn row_copy_ok(self, n: nat) -> bool
        decreases n,
    {
        if n == 0 {
            true
        } else {
            let j = n - 1;
            &&& self.row_copy_ok((n - 1) as nat)
            &&& self.hdma.src + j <= 0xFFFF
            &&& self.hdma.dst + j <= 0xFFFF
            &&& self.hdma.dst + j != 0xFF46
            &&& self.row_copy((n - 1) as nat).read_ok((self.hdma.src + j) as u16)
        }
    }

    /// One 16-byte row of a VRAM DMA transfer: the addresses advance and the
    /// remaining length counts down (from 0 it wraps to 0x7F).
    pub closed spec fn dma_row(self) -> MemoryModel {
        let m = self.row_copy(16);
        MemoryModel {
            hdma: Hdma {
                src: (self.hdma.src + 16) as u16,
                dst: (self.hdma.dst + 16) as u16,
                len: if self.hdma.len == 0 {
                    0x7F
                } else {
                    (self.hdma.len - 1) as u8
                },
                ..self.hdma
            },
            ..m
        }
    }

    pub closed spec fn dma_row_ok(self) -> bool {
        &&& self.row_copy_ok(16)
        &&& self.hdma.src + 16 <= 0xFFFF
        &&& self.hdma.dst + 16 <= 0xFFFF
    }

    pub closed spec fn dma_rows(self, k: nat) -> MemoryModel
        decreases k,
    {
        if k == 0 {
            self
        } else {
            self.dma_rows((k - 1) as nat).dma_row()
        }
    }

    pub closed spec fn dma_rows_ok(self, k: nat) -> bool
        decreases k,
    {
        if k == 0 {
            true
        } else {
            self.dma_rows_ok((k - 1) as nat) && self.dma_rows((k - 1) as nat).dma_row_ok()
        }
    }

    pub closed spec fn vram_dma_ok(self) -> bool {
        if self.hdma.status == DMAType::GDMA {
            self.dma_rows_ok(self.hdma.len as nat + 1)
        } else if self.hdma.status == DMAType::HDMA {
            self.gpu.regs.hblanking ==> self.dma_row_ok()
        } else {
            true
        }
    }

    /// A VRAM DMA step and the clocks it takes: a general transfer copies
    /// all its rows at once, an H-blank transfer one row per H-blank.
    pub closed spec fn vram_dma(self) -> (MemoryModel, u32) {
        if self.hdma.status == DMAType::GDMA {
            let n = self.hdma.len as nat + 1;
            let m = self.dma_rows(n);
            (MemoryModel { hdma: Hdma { status: DMAType::NoDMA, ..m.hdma }, ..m }, (n * 8) as u32)
        } else if self.hdma.status == DMAType::HDMA {
            if !self.gpu.regs.hblanking {
                (self, 0)
            } else {
                let m = self.dma_row();
                if m.hdma.len == 0x7F {
                    (MemoryModel { hdma: Hdma { status: DMAType::NoDMA, ..m.hdma }, ..m }, 8)
                } else {
                    (m, 8)
                }
            }
        } else {
            (self, 0)
        }
    }

    // ---- other operations ----

    /// A requested speed switch carried out.
    pub closed spec fn speed_switched(self) -> MemoryModel {
        MemoryModel {
            gbspeed: if self.speed_switch_req {
                if self.gbspeed == GbSpeed::Double {
                    GbSpeed::Single
                } else {
                    GbSpeed::Double
                }
            } else {
                self.gbspeed
            },
            speed_switch_req: false,
            ..self
        }
    }

    /// The register values that the boot sequence leaves.
    pub closed spec fn boot_registers(self) -> MemoryModel {
        self.write(0xFF05, 0).write(0xFF06, 0).write(0xFF07, 0).write(0xFF10, 0x80).write(
            0xFF11,
            0xBF,
        ).write(0xFF12, 0xF3).write(0xFF14, 0xBF).write(0xFF16, 0x3F).write(0xFF16, 0x3F).write(
            0xFF17,
            0,
        ).write(0xFF19, 0xBF).write(0xFF1A, 0x7F).write(0xFF1B, 0xFF).write(0xFF1C, 0x9F).write(
            0xFF1E,
            0xFF,
        ).write(0xFF20, 0xFF).write(0xFF21, 0).write(0xFF22, 0).write(0xFF23, 0xBF).write(
            0xFF24,
            0x77,
        ).write(0xFF25, 0xF3).write(0xFF26, 0xF1).write(0xFF40, 0x91).write(0xFF42, 0).write(
            0xFF43,
            0,
        ).write(0xFF45, 0).write(0xFF47, 0xFC).write(0xFF48, 0xFF).write(0xFF49, 0xFF).write(
            0xFF4A,
            0,
        ).write(0xFF4B, 0)
    }

    /// The state after power-on, of the classic or the colour model.
    pub closed spec fn initial(cgb: bool) -> MemoryModel {
        MemoryModel {
            gpu: GpuModel::initial(),
            in_bios: true,
            bios: Seq::new(0xFFFF, |i: int| 0u8),
            rom: Seq::new(0x2FFFFF, |i: int| 0u8),
            wram: Seq::new(0x8000, |i: int| 0u8),
            eram: Seq::empty(),
            zram: Seq::new(0x80, |i: int| 0u8),
            hdma: Hdma {
                src_hi: 0,
                src_lo: 0,
                dst_hi: 0,
                dst_lo: 0,
                src: 0,
                dst: 0,
                len: if cgb {
                    0xFF
                } else {
                    0
                },
                status: DMAType::NoDMA,
            },
            banks: Banks { wram_bank: 1, ram_offs: 0, rom_offs: 0x4000 },
            mbc: MBC::initial(),
            carttype: 0,
            interrupt_flags: 0,
            ie: 0,
            timer: Timer::initial(),
            keys: Key::initial(),
            pc: 0,
            rom_name: "Err.sav"@,
            saved: false,
            gbmode: if cgb {
                GbMode::Color
            } else {
                GbMode::Classic
            },
            gbspeed: GbSpeed::Single,
            speed_switch_req: false,
            rtc_now: None,
            sram_snapshot: None,
        }
    }

    /// The addresses whose reads are answered (the others stop the machine).
    pub closed spec fn read_ok(self, a: u16) -> bool {
        if a < 0x8000 {
            if self.in_bios && a < 0x100 {
                true
            } else {
                self.rom_index(a) < self.rom.len()
            }
        } else if 0xA000 <= a < 0xC000 {
            self.read_eram_ok(a)
        } else if 0xC000 <= a < 0xFE00 {
            self.work_index(a) < self.wram.len()
        } else {
            a != 0xFF4C && a != 0xFF4E
        }
    }

    /// The byte a read of `a` gives.
    pub closed spec fn read(self, a: u16) -> u8 {
        if a < 0x8000 {
            if self.in_bios && a < 0x100 {
                self.bios[a as int]
            } else {
                self.rom[self.rom_index(a)]
            }
        } else if a < 0xA000 {
            self.gpu.read(a)
        } else if a < 0xC000 {
            self.read_eram(a)
        } else if a < 0xFE00 {
            self.wram[self.work_index(a)]
        } else if a < 0xFEA0 {
            self.gpu.read(a)
        } else if a < 0xFF00 {
            0
        } else if a == 0xFFFF {
            self.ie
        } else if a >= 0xFF80 {
            self.zram[a as int % 0x80]
        } else {
            self.read_io(a)
        }
    }
}

/// Address bits that index the memories.
proof fn lemma_addr_bits(a: u16)
    ensures
        (a as usize) & 0x1FFF == a as int % 0x2000,
        (a as usize) & 0x3FFF == a as int % 0x4000,
        (a as usize) & 0x7F == a as int % 0x80,
        (a as usize) & 0xFFF == a as int % 0x1000,
{
    let x = a as usize;
    assert(x & 0x1FFF == x % 0x2000 && x & 0x3FFF == x % 0x4000 && x & 0x7F == x % 0x80 && x
        & 0xFFF == x % 0x1000) by (bit_vector);
}

/// Bounds of the bank numbers that the controllers compose.
proof fn lemma_bank_bits(x: usize, y: usize, v: u8)
    ensures
        y <= 0x1F ==> (x & 0x60) | y <= 0x7F,
        y <= 0xFF ==> (x & 0x100) | y <= 0x1FF,
        y <= 1 ==> (x & 0xFF) | (y << 8usize) <= 0x1FF,
        y <= 3 ==> (x & 0x1F) | (y << 5usize) <= 0x7F,
        v & 0x1F <= 0x1F,
        v & 0x7F <= 0x7F,
        v & 0x0F <= 0x0F,
        v & 3 <= 3,
        v & 1 <= 1,
{
    assert((y <= 0x1F ==> (x & 0x60) | y <= 0x7F) && (y <= 0xFF ==> (x & 0x100) | y <= 0x1FF) && (
    y <= 1 ==> (x & 0xFF) | (y << 8usize) <= 0x1FF) && (y <= 3 ==> (x & 0x1F) | (y << 5usize)
        <= 0x7F)) by (bit_vector);
    assert(v & 0x1F <= 0x1F && v & 0x7F <= 0x7F && v & 0x0F <= 0x0F && v & 3 <= 3 && v & 1 <= 1)
        by (bit_vector);
}

/// Replacing OAM changes no read through the memory map but those of the
/// OAM bytes that changed.
proof fn lemma_reads_ignore_oam(m: MemoryModel, voam: Seq<u8>, a: u16)
    requires
        voam.len() == m.gpu.voam.len(),
        0xFE00 <= a < 0xFEA0 ==> voam[a - 0xFE00] == m.gpu.voam[a - 0xFE00],
    ensures
        ({
            let m2 = MemoryModel { gpu: GpuModel { voam, ..m.gpu }, ..m };
            m2.read_ok(a) == m.read_ok(a) && m2.read(a) == m.read(a)
        }),
{
}

/// A row copy changes the GPU only.
proof fn lemma_row_copy_frame(m: MemoryModel, n: nat)
    ensures
        m.row_copy(n) == (MemoryModel { gpu: m.row_copy(n).gpu, ..m }),
    decreases n,
{
    if n > 0 {
        lemma_row_copy_frame(m, (n - 1) as nat);
    }
}

proof fn lemma_row_ok_prefix(m: MemoryModel, n: nat, k: nat)
    requires
        m.row_copy_ok(n),
        k <= n,
    ensures
        m.row_copy_ok(k),
    decreases n,
{
    if k < n {
        lemma_row_ok_prefix(m, (n - 1) as nat, k);
    }
}

proof fn lemma_rows_ok_prefix(m: MemoryModel, n: nat, k: nat)
    requires
        m.dma_rows_ok(n),
        k <= n,
    ensures
        m.dma_rows_ok(k),
    decreases n,
{
    if k < n {
        lemma_rows_ok_prefix(m, (n - 1) as nat, k);
    }
}

impl MBC {
    /// Clock register `i`.
    fn rtc_reg(&self, i: usize) -> (r: u8)
        requires
            i < 5,
        ensures
            r == self.rtc_get(i as int),
    {
        match i {
            0 => self.rtc_sec,
            1 => self.rtc_min,
            2 => self.rtc_hour,
            3 => self.rtc_day_lo,
            _ => self.rtc_day_hi,
        }
    }

    fn set_rtc_reg(&mut self, i: usize, v: u8)
        requires
            i < 5,
        ensures
            *final(self) == old(self).rtc_set(i as int, v),
    {
        match i {
            0 => self.rtc_sec = v,
            1 => self.rtc_min = v,
            2 => self.rtc_hour = v,
            3 => self.rtc_day_lo = v,
            _ => self.rtc_day_hi = v,
        }
    }

    /// Seconds that the clock registers hold.
    fn rtc_total(&self) -> (r: u64)
        ensures
            r == self.rtc_seconds(),
    {
        self.rtc_sec as u64 + self.rtc_min as u64 * 60 + self.rtc_hour as u64 * 3600 + ((
        self.rtc_day_hi % 2) as u64 * 256 + self.rtc_day_lo as u64) * 86400
    }
}

impl Memory {
    pub fn new() -> (r: Memory)
        ensures
            r@ == MemoryModel::initial(false),
            r@.wf(),
    {
        let r = Memory {
            gpu: GPU::new(),
            in_bios: true,
            bios: vec![0x0; 0xFFFF],
            rom: vec![0x0; 0x2FFFFF],
            wram: vec![0x0; 0x8000],
            eram: Vec::<u8>::new(),
            zram: vec![0x0; 0x80],
            hdma: Hdma {
                src_hi: 0,
                src_lo: 0,
                dst_hi: 0,
                dst_lo: 0,
                src: 0,
                dst: 0,
                len: 0,
                status: DMAType::NoDMA,
            },
            banks: Banks { wram_bank: 1, ram_offs: 0, rom_offs: 0x4000 },
            mbc: MBC::new(),
            carttype: 0,
            interrupt_flags: 0,
            ie: 0,
            timer: Timer::new(),
            keys: Key::new(),
            pc: 0,
            rom_name: String::from_str("Err.sav"),
            saved: false,
            gbmode: GbMode::Classic,
            gbspeed: GbSpeed::Single,
            speed_switch_req: false,
            rtc_now: None,
            sram_snapshot: None,
        };
        assert(r@.bios =~= MemoryModel::initial(false).bios);
        assert(r@.rom =~= MemoryModel::initial(false).rom);
        assert(r@.wram =~= MemoryModel::initial(false).wram);
        assert(r@.eram =~= MemoryModel::initial(false).eram);
        assert(r@.zram =~= MemoryModel::initial(false).zram);
        r
    }

    pub fn new_cgb() -> (r: Memory)
        ensures
            r@ == MemoryModel::initial(true),
            r@.wf(),
    {
        let mut r = Memory::new();
        r.gpu = GPU::new_cgb();
        r.hdma.len = 0xFF;
        r.gbmode = GbMode::Color;
        r
    }

    /// Writes the register values that the boot sequence leaves.
    pub fn set_initial(&mut self)
        requires
            old(self)@.wf(),
        ensures
            final(self)@ == old(self)@.boot_registers(),
            final(self)@.wf(),
    {
        self.wb(0xFF05, 0);
        self.wb(0xFF06, 0);
        self.wb(0xFF07, 0);
        self.wb(0xFF10, 0x80);
        self.wb(0xFF11, 0xBF);
        self.wb(0xFF12, 0xF3);
        self.wb(0xFF14, 0xBF);
        self.wb(0xFF16, 0x3F);
        self.wb(0xFF16, 0x3F);
        self.wb(0xFF17, 0);
        self.wb(0xFF19, 0xBF);
        self.wb(0xFF1A, 0x7F);
        self.wb(0xFF1B, 0xFF);
        self.wb(0xFF1C, 0x9F);
        self.wb(0xFF1E, 0xFF);
        self.wb(0xFF20, 0xFF);
        self.wb(0xFF21, 0);
        self.wb(0xFF22, 0);
        self.wb(0xFF23, 0xBF);
        self.wb(0xFF24, 0x77);
        self.wb(0xFF25, 0xF3);
        self.wb(0xFF26, 0xF1);
        self.wb(0xFF40, 0x91);
        self.wb(0xFF42, 0);
        self.wb(0xFF43, 0);
        self.wb(0xFF45, 0);
        self.wb(0xFF47, 0xFC);
        self.wb(0xFF48, 0xFF);
        self.wb(0xFF49, 0xFF);
        self.wb(0xFF4A, 0);
        self.wb(0xFF4B, 0);
    }

    /// Chooses the colour mode from the cartridge header's CGB flag.
    pub fn determine_mode(&mut self)
        requires
            old(self)@.wf(),
            old(self)@.read_ok(0x0143),
        ensures
            final(self)@ == (MemoryModel {
                gbmode: if old(self)@.read(0x0143) & 0x80 == 0x80 {
                    GbMode::Color
                } else {
                    GbMode::ColorAsClassic
                },
                ..old(self)@
            }),
            final(self)@.wf(),
    {
        let mode = if self.rb(0x0143) & 0x80 == 0x80 {
            GbMode::Color
        } else {
            GbMode::ColorAsClassic
        };
        self.gbmode = mode;
    }

    /// Index in work RAM that an address in 0xC000..=0xFDFF reaches.
    fn work_index(&self, a: u16) -> (r: usize)
        requires
            self@.wf(),
            0xC000 <= a < 0xFE00,
        ensures
            r == self@.work_index(a),
    {
        proof {
            lemma_addr_bits(a);
        }
        let o = a as usize & 0x1FFF;
        if o < 0x1000 {
            a as usize & 0xFFF
        } else {
            self.banks.wram_bank * 0x1000 + (a as usize & 0xFFF)
        }
    }

    /// Reads a byte.
    pub fn rb(&mut self, address: u16) -> (r: u8)
        requires
            old(self)@.wf(),
            old(self)@.read_ok(address),
        ensures
            r == old(self)@.read(address),
            *final(self) == *old(self),
    {
        proof {
            lemma_addr_bits(address);
        }
        if address < 0x8000 {
            if self.in_bios && address < 0x100 {
                self.bios[address as usize]
            } else if address < 0x4000 {
                self.rom[address as usize]
            } else {
                self.rom[self.banks.rom_offs + (address as usize & 0x3FFF)]
            }
        } else if address < 0xA000 {
            self.gpu.rb(address)
        } else if address < 0xC000 {
            self.read_eram(address)
        } else if address < 0xFE00 {
            self.wram[self.work_index(address)]
        } else if address < 0xFEA0 {
            self.gpu.rb(address)
        } else if address < 0xFF00 {
            0
        } else if address == 0xFFFF {
            self.ie
        } else if address >= 0xFF80 {
            self.zram[address as usize & 0x7F]
        } else {
            self.read_io(address)
        }
    }

    fn read_eram(&self, address: u16) -> (r: u8)
        requires
            self@.wf(),
            0xA000 <= address < 0xC000,
            self@.read_eram_ok(address),
        ensures
            r == self@.read_eram(address),
    {
        proof {
            lemma_addr_bits(address);
        }
        if !self.mbc.ram_on {
            return 0;
        }
        let c = self.carttype;
        if (1 <= c && c <= 3) || (0x19 <= c && c <= 0x1E) || (0xF <= c && c <= 0x13
            && self.mbc.rambank <= 3) {
            self.eram[self.banks.ram_offs + (address as usize & 0x1FFF)]
        } else if 0xF <= c && c <= 0x13 {
            self.mbc.rtc_reg(self.mbc.rambank - 8)
        } else {
            0
        }
    }

    fn read_io(&mut self, address: u16) -> (r: u8)
        requires
            old(self)@.wf(),
            0xFF00 <= address < 0xFF80,
            old(self)@.read_ok(address),
        ensures
            r == old(self)@.read_io(address),
            *final(self) == *old(self),
    {
        let lo = address % 0x100;
        if lo < 0x10 {
            if lo == 0 {
                self.keys.rb()
            } else if 4 <= lo && lo <= 7 {
                self.timer.rb(address)
            } else if lo == 0xF {
                self.interrupt_flags
            } else {
                0
            }
        } else if lo == 0x4D {
            (if self.gbspeed == GbSpeed::Double {
                0x80u8
            } else {
                0
            }) + (if self.speed_switch_req {
                1
            } else {
                0
            })
        } else if 0x40 <= lo && lo <= 0x4F {
            self.gpu.rb(address)
        } else if 0x51 <= lo && lo <= 0x55 {
            self.hdma_read(address)
        } else if 0x68 <= lo && lo <= 0x6B {
            self.gpu.rb(address)
        } else if lo == 0x70 {
            self.banks.wram_bank as u8
        } else {
            0
        }
    }

    fn hdma_read(&self, a: u16) -> (r: u8)
        requires
            0xFF51 <= a <= 0xFF55,
        ensures
            r == self@.hdma_read(a),
    {
        match a {
            0xFF51 => self.hdma.src_hi,
            0xFF52 => self.hdma.src_lo,
            0xFF53 => self.hdma.dst_hi,
            0xFF54 => self.hdma.dst_lo,
            _ => self.hdma.len | (if self.hdma.status == DMAType::NoDMA {
                0x80
            } else {
                0
            }),
        }
    }
}

impl Memory {
    /// Writes a byte.
    pub fn wb(&mut self, address: u16, value: u8)
        requires
            old(self)@.wf(),
            old(self)@.write_ok(address, value),
        ensures
            final(self)@ == old(self)@.write(address, value),
            final(self)@.wf(),
    {
        proof {
            lemma_addr_bits(address);
        }
        if address < 0x2000 {
            self.write_ram_enable(value);
        } else if address < 0x4000 {
            self.write_rom_bank(address, value);
        } else if address < 0x6000 {
            self.write_ram_bank(value);
        } else if address < 0x8000 {
            self.write_latch(value);
        } else if address < 0xA000 {
            self.gpu.wb(address, value);
        } else if address < 0xC000 {
            self.write_eram(address, value);
        } else if address < 0xFE00 {
            let i = self.work_index(address);
            self.wram[i] = value;
        } else if address < 0xFF00 {
            self.gpu.wb(address, value);
        } else if address == 0xFFFF {
            self.ie = value;
        } else if address >= 0xFF80 {
            self.zram[address as usize & 0x7F] = value;
        } else {
            self.write_io(address, value);
        }
    }

    fn set_rombank(&mut self, bank: usize)
        requires
            old(self)@.wf(),
            bank <= 0x1FF,
        ensures
            final(self)@ == old(self)@.with_rombank(bank),
            final(self)@.wf(),
    {
        self.mbc.rombank = bank;
        self.banks.rom_offs = bank * 0x4000;
    }

    fn set_rambank(&mut self, bank: usize)
        requires
            old(self)@.wf(),
            bank <= 0xFF,
        ensures
            final(self)@ == old(self)@.with_rambank(bank),
            final(self)@.wf(),
    {
        self.mbc.rambank = bank;
        self.banks.ram_offs = bank * 0x2000;
    }

    fn write_ram_enable(&mut self, value: u8)
        requires
            old(self)@.wf(),
        ensures
            final(self)@ == old(self)@.write_ram_enable(value),
            final(self)@.wf(),
    {
        reveal(MemoryModel::write_ram_enable);
        let c = self.carttype;
        if (1 <= c && c <= 3) || (0xF <= c && c <= 0x13) || (0x19 <= c && c <= 0x1E) {
            self.mbc.ram_on = value == 0xA;
            if !self.mbc.ram_on && !self.saved {
                self.save_sram();
                self.saved = true;
            }
        }
    }

    /// Takes a copy of external RAM for the save file.
    pub fn save_sram(&mut self)
        ensures
            final(self)@ == (MemoryModel { sram_snapshot: Some(old(self)@.eram), ..old(self)@ }),
    {
        let mut copy: Vec<u8> = Vec::new();
        let n = self.eram.len();
        let mut i: usize = 0;
        while i < n
            invariant
                i <= n,
                n == self.eram.len(),
                copy@ == self.eram@.subrange(0, i as int),
            decreases n - i,
        {
            copy.push(self.eram[i]);
            i += 1;
        }
        assert(copy@ =~= self.eram@);
        self.sram_snapshot = Some(copy);
    }

    fn write_rom_bank(&mut self, address: u16, value: u8)
        requires
            old(self)@.wf(),
            0x2000 <= address < 0x4000,
        ensures
            final(self)@ == old(self)@.write_rom_bank(address, value),
            final(self)@.wf(),
    {
        reveal(MemoryModel::write_rom_bank);
        let c = self.carttype;
        if 1 <= c && c <= 3 {
            let mut v = value & 0x1F;
            if v == 0 {
                v = 1;
            }
            proof {
                lemma_bank_bits(self.mbc.rombank, v as usize, value);
            }
            self.set_rombank((self.mbc.rombank & 0x60) | (v as usize));
        } else if 0xF <= c && c <= 0x13 {
            proof {
                lemma_bank_bits(self.mbc.rombank, 0, value);
            }
            let bank: usize = if value & 0x7F == 0 {
                1
            } else {
                (value & 0x7F) as usize
            };
            self.set_rombank(bank);
        } else if 0x19 <= c && c <= 0x1E {
            if address < 0x3000 {
                proof {
                    lemma_bank_bits(self.mbc.rombank, value as usize, value);
                }
                self.set_rombank((self.mbc.rombank & 0x100) | (value as usize));
            } else {
                proof {
                    lemma_bank_bits(self.mbc.rombank, (value & 1) as usize, value);
                }
                self.set_rombank((self.mbc.rombank & 0xFF) | (((value & 0x1) as usize) << 8usize));
            }
        }
    }

    fn write_ram_bank(&mut self, value: u8)
        requires
            old(self)@.wf(),
        ensures
            final(self)@ == old(self)@.write_ram_bank(value),
            final(self)@.wf(),
    {
        reveal(MemoryModel::write_ram_bank);
        proof {
            lemma_bank_bits(self.mbc.rombank, (value & 3) as usize, value);
        }
        let c = self.carttype;
        if 1 <= c && c <= 3 {
            if self.mbc.mode != 0 {
                self.set_rambank((value as usize) & 3);
                assert((value as usize) & 3 == (value & 3) as usize) by (bit_vector);
            } else {
                self.set_rombank((self.mbc.rombank & 0x1F) | (((value & 3) as usize) << 5usize));
            }
        } else if 0xF <= c && c <= 0x13 {
            self.set_rambank(value as usize);
        } else if 0x19 <= c && c <= 0x1E {
            self.set_rambank((value & 0x0F) as usize);
        }
    }

    fn write_latch(&mut self, value: u8)
        requires
            old(self)@.wf(),
        ensures
            final(self)@ == old(self)@.write_latch(value),
            final(self)@.wf(),
    {
        reveal(MemoryModel::write_latch);
        let c = self.carttype;
        if 1 <= c && c <= 3 {
            self.mbc.mode = value & 0x1;
        } else if 0xF <= c && c <= 0x13 {
            if value == 0 {
                self.mbc.rtc_lock = false;
            } else if value == 1 {
                if !self.mbc.rtc_lock {
                    let t = match self.mbc.rtc_zero {
                        Some(t) => t,
                        None => {
                            return ;
                        },
                    };
                    if self.mbc.rtc_day_hi & 0x40 == 0x40 {
                        return ;
                    }
                    let diff: u64 = match self.rtc_now {
                        Some(n) => if n >= t {
                            n - t
                        } else {
                            0
                        },
                        None => 0,
                    };
                    let days = diff / 86400;
                    let ghost m0 = self.mbc;
                    self.mbc.rtc_sec = (diff % 60) as u8;
                    self.mbc.rtc_min = ((diff / 60) % 60) as u8;
                    self.mbc.rtc_hour = ((diff / 3600) % 24) as u8;
                    self.mbc.rtc_day_lo = (days % 256) as u8;
                    self.mbc.rtc_day_hi = (self.mbc.rtc_day_hi & 0xFE) | ((days / 256) % 2) as u8;
                    if days >= 512 {
                        self.mbc.rtc_day_hi = self.mbc.rtc_day_hi | 0x80;
                        let now: u64 = match self.rtc_now {
                            Some(n) => n,
                            None => 0,
                        };
                        proof {
                            lemma_latched_seconds(m0, diff);
                            assert(self.mbc.rtc_seconds() == m0.rtc_latched(diff).rtc_seconds());
                        }
                        self.mbc.rtc_zero = Some(now - self.mbc.rtc_total());
                    }
                }
                self.mbc.rtc_lock = true;
            }
        }
    }

    fn write_eram(&mut self, address: u16, value: u8)
        requires
            old(self)@.wf(),
            0xA000 <= address < 0xC000,
            old(self)@.write_eram_ok(address, value),
        ensures
            final(self)@ == old(self)@.write_eram(address, value),
            final(self)@.wf(),
    {
        reveal(MemoryModel::write_eram);
        proof {
            lemma_addr_bits(address);
        }
        if !self.mbc.ram_on {
            return ;
        }
        let c = self.carttype;
        if (1 <= c && c <= 3) || (0x19 <= c && c <= 0x1E) || (0xF <= c && c <= 0x13
            && self.mbc.rambank <= 3) {
            self.eram[self.banks.ram_offs + (address as usize & 0x1FFF)] = value;
        } else if 0xF <= c && c <= 0x13 {
            self.mbc.set_rtc_reg(self.mbc.rambank - 8, value);
            if self.mbc.rtc_zero.is_some() {
                let now: u64 = match self.rtc_now {
                    Some(n) => n,
                    None => 0,
                };
                self.mbc.rtc_zero = Some(now - self.mbc.rtc_total());
            }
        }
    }

    fn write_io(&mut self, address: u16, value: u8)
        requires
            old(self)@.wf(),
            0xFF00 <= address < 0xFF80,
            old(self)@.write_ok(address, value),
        ensures
            final(self)@ == old(self)@.write_io(address, value),
            final(self)@.wf(),
    {
        reveal(MemoryModel::write_io);
        let lo = address % 0x100;
        if lo < 0x10 {
            if lo == 0 {
                self.keys.wb(value);
            } else if 4 <= lo && lo <= 7 {
                self.timer.wb(address, value);
            } else if lo == 0xF {
                self.interrupt_flags = value;
            }
        } else if lo < 0x40 {
        } else if lo == 0x46 {
            self.oamdma(value);
        } else if lo == 0x4D {
            if value & 0x1 == 0x1 {
                self.speed_switch_req = true;
            }
        } else if lo < 0x50 {
            self.gpu.wb(address, value);
        } else if 0x51 <= lo && lo <= 0x55 {
            self.hdma_write(address, value);
        } else if 0x68 <= lo && lo <= 0x6B {
            self.gpu.wb(address, value);
        } else if lo == 0x70 {
            self.banks.wram_bank =
            if value & 0xF == 0 {
                1
            } else {
                (value & 0xF) as usize
            };
            proof {
                lemma_bank_bits(0, 0, value);
            }
        }
    }

    /// OAM DMA: copies 160 bytes from `value * 0x100` on to OAM.
    fn oamdma(&mut self, value: u8)
        requires
            old(self)@.wf(),
            old(self)@.oam_dma_ok(value),
        ensures
            final(self)@ == old(self)@.oam_dma(value),
            final(self)@.wf(),
    {
        let base: u16 = (value as u16) * 256;
        let ghost m0 = self@;
        let mut i: u16 = 0;
        while i < 0xA0
            invariant
                i <= 0xA0,
                base == value * 256,
                m0 == old(self)@,
                m0.oam_dma_ok(value),
                self@.wf(),
                self@ == (MemoryModel { gpu: GpuModel { voam: self@.gpu.voam, ..m0.gpu }, ..m0 }),
                self@.gpu.voam.len() == m0.gpu.voam.len(),
                forall|j: int| i <= j < 0xA0 ==> self@.gpu.voam[j] == m0.gpu.voam[j],
                forall|j: int|
                    0 <= j < i ==> self@.gpu.voam[j] == m0.read(
                        #[trigger] MemoryModel::oam_source(value, j),
                    ),
            decreases 0xA0 - i,
        {
            proof {
                lemma_reads_ignore_oam(m0, self@.gpu.voam, (base + i) as u16);
                assert(m0.read_ok(MemoryModel::oam_source(value, i as int)));
            }
            let b = self.rb(base + i);
            self.gpu.wb(0xFE00 + i, b);
            i += 1;
        }
        assert(self@.gpu.voam =~= Seq::new(
            0xA0,
            |i: int| m0.read(MemoryModel::oam_source(value, i)),
        ));
    }

    fn hdma_write(&mut self, a: u16, v: u8)
        requires
            old(self)@.wf(),
            0xFF51 <= a <= 0xFF55,
            old(self)@.hdma_write_ok(a, v),
        ensures
            final(self)@ == old(self)@.hdma_write(a, v),
            final(self)@.wf(),
    {
        reveal(MemoryModel::hdma_write);
        proof {
            lemma_bank_bits(0, 0, v);
        }
        match a {
            0xFF51 => self.hdma.src_hi = v,
            0xFF52 => self.hdma.src_lo = v & 0xF0,
            0xFF53 => self.hdma.dst_hi = v & 0x1F,
            0xFF54 => self.hdma.dst_lo = v & 0xF0,
            _ => {
                if self.hdma.status == DMAType::HDMA {
                    if v & 0x80 == 0 {
                        self.hdma.status = DMAType::NoDMA;
                    }
                    return ;
                }
                let src = (self.hdma.src_hi as u16) * 256 + (self.hdma.src_lo as u16);
                let dst = (self.hdma.dst_hi as u16) * 256 + (self.hdma.dst_lo as u16) + 0x8000;
                self.hdma.src = src;
                self.hdma.dst = dst;
                self.hdma.len = v & 0x7F;
                self.hdma.status =
                if v & 0x80 == 0x80 {
                    DMAType::HDMA
                } else {
                    DMAType::GDMA
                };
            },
        }
    }
}

impl Memory {
    /// Loads a save file's bytes into the start of external RAM.
    pub fn load_sram(&mut self, save: &Vec<u8>)
        requires
            old(self)@.wf(),
            save.len() <= old(self)@.eram.len(),
        ensures
            final(self)@ == (MemoryModel {
                eram: save@ + old(self)@.eram.subrange(save.len() as int, old(self)@.eram.len() as int),
                ..old(self)@
            }),
            final(self)@.wf(),
    {
        let ghost m0 = self@;
        let mut counter: usize = 0;
        while counter < save.len()
            invariant
                counter <= save.len(),
                save.len() <= m0.eram.len(),
                m0 == old(self)@,
                m0.wf(),
                self@ == (MemoryModel { eram: self@.eram, ..m0 }),
                self@.eram.len() == m0.eram.len(),
                forall|i: int| 0 <= i < counter ==> self@.eram[i] == save@[i],
                forall|i: int| counter <= i < m0.eram.len() ==> self@.eram[i] == m0.eram[i],
            decreases save.len() - counter,
        {
            self.eram[counter] = save[counter];
            counter += 1;
        }
        assert(self@.eram =~= save@ + m0.eram.subrange(save.len() as int, m0.eram.len() as int));
    }

    /// Carries out a requested speed switch.
    pub fn switch_speed(&mut self)
        requires
            old(self)@.wf(),
        ensures
            final(self)@ == old(self)@.speed_switched(),
            final(self)@.wf(),
    {
        if self.speed_switch_req {
            if self.gbspeed == GbSpeed::Double {
                self.gbspeed = GbSpeed::Single;
            } else {
                self.gbspeed = GbSpeed::Double;
            }
        }
        self.speed_switch_req = false;
    }

    /// Runs the pending VRAM DMA work; returns the clocks it took.
    pub fn perform_vramdma(&mut self) -> (r: u32)
        requires
            old(self)@.wf(),
            old(self)@.vram_dma_ok(),
        ensures
            (final(self)@, r) == old(self)@.vram_dma(),
            final(self)@.wf(),
    {
        match self.hdma.status {
            DMAType::NoDMA => 0,
            DMAType::GDMA => self.perform_gdma(),
            DMAType::HDMA => self.perform_hdma(),
        }
    }

    fn perform_hdma(&mut self) -> (r: u32)
        requires
            old(self)@.wf(),
            old(self)@.hdma.status == DMAType::HDMA,
            old(self)@.vram_dma_ok(),
        ensures
            (final(self)@, r) == old(self)@.vram_dma(),
            final(self)@.wf(),
    {
        if self.gpu.may_hdma() == false {
            return 0;
        }
        self.perform_vramdma_row();
        if self.hdma.len == 0x7F {
            self.hdma.status = DMAType::NoDMA;
        }
        return 8;
    }

    fn perform_gdma(&mut self) -> (r: u32)
        requires
            old(self)@.wf(),
            old(self)@.hdma.status == DMAType::GDMA,
            old(self)@.vram_dma_ok(),
        ensures
            (final(self)@, r) == old(self)@.vram_dma(),
            final(self)@.wf(),
    {
        let len = self.hdma.len as u32 + 1;
        let ghost m0 = self@;
        let mut i: u32 = 0;
        while i < len
            invariant
                i <= len,
                len == m0.hdma.len + 1,
                m0 == old(self)@,
                m0.dma_rows_ok(len as nat),
                self@ == m0.dma_rows(i as nat),
                self@.wf(),
            decreases len - i,
        {
            proof {
                lemma_rows_ok_prefix(m0, len as nat, (i + 1) as nat);
            }
            self.perform_vramdma_row();
            i += 1;
        }
        self.hdma.status = DMAType::NoDMA;
        return len * 8;
    }

    /// Copies one 16-byte row from the DMA source to video RAM.
    fn perform_vramdma_row(&mut self)
        requires
            old(self)@.wf(),
            old(self)@.dma_row_ok(),
        ensures
            final(self)@ == old(self)@.dma_row(),
            final(self)@.wf(),
    {
        let mmu_src = self.hdma.src;
        let dst = self.hdma.dst;
        let ghost m0 = self@;
        let mut j: u16 = 0;
        while j < 0x10
            invariant
                j <= 0x10,
                m0 == old(self)@,
                mmu_src == m0.hdma.src,
                dst == m0.hdma.dst,
                m0.row_copy_ok(16),
                self@ == m0.row_copy(j as nat),
                self@.wf(),
            decreases 0x10 - j,
        {
            proof {
                lemma_row_ok_prefix(m0, 16, (j + 1) as nat);
            }
            let b: u8 = self.rb(mmu_src + j);
            self.gpu.wb(dst + j, b);
            j += 1;
        }
        proof {
            lemma_row_copy_frame(m0, 16);
        }
        self.hdma.src = mmu_src + 0x10;
        self.hdma.dst = dst + 0x10;
        if self.hdma.len == 0 {
            self.hdma.len = 0x7F;
        } else {
            self.hdma.len -= 1;
        }
    }
}

/// Work RAM through the map: 0xC000..=0xCFFF is bank 0, 0xD000..=0xDFFF
/// the bank selected through 0xFF70 (1 to 15), and 0xE000..=0xFDFF echoes
/// 0xC000..=0xDDFF. Such an address is readable and writable exactly when
/// its bank lies within the 32 KiB of work RAM.
#[verifier::rlimit(40)]
pub proof fn law_wram_map(m: MemoryModel, a: u16, v: u8)
    requires
        m.wf(),
        0xC000 <= a < 0xFE00,
    ensures
        1 <= m.wram_bank() <= 15,
        m.wram.len() == 0x8000,
        m.read_ok(a) <==> m.work_index(a) < 0x8000,
        m.write_ok(a, v) <==> m.work_index(a) < 0x8000,
        m.read_ok(a) ==> m.read(a) == m.wram[m.work_index(a)],
        a < 0xDE00 ==> m.read_ok((a + 0x2000) as u16) == m.read_ok(a) && m.read(
            (a + 0x2000) as u16,
        ) == m.read(a) && m.write((a + 0x2000) as u16, v) == m.write(a, v),
{
    if a < 0xDE00 {
        let e = (a + 0x2000) as u16;
        assert(m.work_index(e) == m.work_index(a));
        assert(m.write(e, v) == MemoryModel { wram: m.wram.update(m.work_index(a), v), ..m });
        assert(m.write(a, v) == MemoryModel { wram: m.wram.update(m.work_index(a), v), ..m });
    }
}

/// Writing 0xFF70 selects work RAM bank `v & 0x0F`, bank 0 standing for
/// bank 1; the register reads back the bank.
pub proof fn law_wram_bank_select(m: MemoryModel, v: u8)
    requires
        m.wf(),
    ensures
        m.write_ok(0xFF70, v),
        m.write(0xFF70, v).wf(),
        m.write(0xFF70, v).wram_bank() == if v & 0x0F == 0 {
            1
        } else {
            (v & 0x0F) as int
        },
        m.write(0xFF70, v).read(0xFF70) == m.write(0xFF70, v).wram_bank(),
        m.write(0xFF70, v).wram == m.wram,
{
    reveal(MemoryModel::write_io);
    assert(v & 0x0F <= 0x0F) by (bit_vector);
}



/// What reads through the memory map give, region by region: the boot ROM
/// over the first page while it is mapped, ROM bank 0, the selected ROM
/// bank, the GPU's video RAM and OAM, nothing in 0xFEA0..=0xFEFF, high RAM
/// and IE.
pub proof fn law_memory_regions(m: MemoryModel, a: u16)
    requires
        m.wf(),
    ensures
        (a < 0x100 && m.in_bios) ==> m.read_ok(a) && m.read(a) == m.bios[a as int],
        (a < 0x4000 && !(a < 0x100 && m.in_bios)) ==> (m.read_ok(a) <==> a < m.rom.len()) && (
        m.read_ok(a) ==> m.read(a) == m.rom[a as int]),
        0x4000 <= a < 0x8000 ==> (m.read_ok(a) <==> m.rom_offset() + a as int % 0x4000
            < m.rom.len()) && (m.read_ok(a) ==> m.read(a) == m.rom[m.rom_offset() + a as int
            % 0x4000]),
        (0x8000 <= a < 0xA000 || 0xFE00 <= a < 0xFEA0) ==> m.read_ok(a) && m.read(a)
            == m.gpu.read(a),
        0xFEA0 <= a < 0xFF00 ==> m.read_ok(a) && m.read(a) == 0,
        0xFF80 <= a < 0xFFFF ==> m.read_ok(a) && m.read(a) == m.zram[a - 0xFF80],
        a == 0xFFFF ==> m.read_ok(a) && m.read(a) == m.ie,
{
}

/// A byte written to plain memory (video RAM, work RAM and its echo, OAM,
/// high RAM, IE) reads back.
pub proof fn law_plain_write_read(m: MemoryModel, a: u16, v: u8)
    requires
        m.wf(),
        m.plain(a),
    ensures
        m.write_ok(a, v),
        m.write(a, v).wf(),
        m.write(a, v).read_ok(a),
        m.write(a, v).read(a) == v,
        m.write(a, v).wram_bank() == m.wram_bank(),
        m.write(a, v).interrupt_flags == m.interrupt_flags,
{
}

/// Two neighbouring addresses never reach the same byte.
pub proof fn law_neighbours_distinct(m: MemoryModel, a: u16)
    requires
        m.wf(),
    ensures
        !m.same_cell(a, ((a + 1) % 65536) as u16),
{
}

/// Writing one plain memory byte leaves every plain address that reaches
/// another byte as it was.
pub proof fn law_plain_write_other(m: MemoryModel, a: u16, b: u16, v: u8)
    requires
        m.wf(),
        m.plain(a),
        m.plain(b),
        !m.same_cell(a, b),
    ensures
        m.write(a, v).read_ok(b),
        m.write(a, v).read(b) == m.read(b),
{
}

/// The switchable work RAM banks are separate: a byte written at `a` in
/// 0xD000..=0xDFFF under bank `j` survives a write at `a` under another
/// bank `k`, and reads back once bank `j` is selected again.
#[verifier::spinoff_prover]
#[verifier::rlimit(60)]
pub proof fn law_wram_banks_separate(m: MemoryModel, a: u16, j: u8, k: u8, x: u8, y: u8)
    requires
        m.wf(),
        0xD000 <= a < 0xE000,
        1 <= j <= 7,
        1 <= k <= 7,
        j != k,
    ensures
        ({
            let m1 = m.write(0xFF70, j).write(a, x);
            let m2 = m1.write(0xFF70, k).write(a, y);
            let m3 = m2.write(0xFF70, j);
            &&& m.write(0xFF70, j).write_ok(a, x)
            &&& m1.write(0xFF70, k).write_ok(a, y)
            &&& m3.read_ok(a)
            &&& m3.read(a) == x
        }),
{
    assert(j & 0x0F == j && k & 0x0F == k) by (bit_vector)
        requires
            1 <= j <= 7,
            1 <= k <= 7,
    ;
    law_wram_bank_select(m, j);
    let m0 = m.write(0xFF70, j);
    assert(m0.work_index(a) == j * 0x1000 + a as int % 0x1000);
    lemma_wram_write_shape(m0, a, x);
    let m1 = m0.write(a, x);
    law_wram_bank_select(m1, k);
    let m1k = m1.write(0xFF70, k);
    assert(m1k.work_index(a) == k * 0x1000 + a as int % 0x1000);
    lemma_wram_write_shape(m1k, a, y);
    let m2 = m1k.write(a, y);
    law_wram_bank_select(m2, j);
    let m3 = m2.write(0xFF70, j);
    law_wram_map(m3, a, x);
    assert(m3.wram == m.wram.update(m0.work_index(a), x).update(m1k.work_index(a), y));
}

/// A work RAM write replaces one byte of work RAM and nothing else.
proof fn lemma_wram_write_shape(m: MemoryModel, a: u16, v: u8)
    requires
        m.wf(),
        0xC000 <= a < 0xFE00,
        m.work_index(a) < 0x8000,
    ensures
        m.write(a, v) == (MemoryModel { wram: m.wram.update(m.work_index(a), v), ..m }),
        m.write(a, v).wf(),
{
}




/// Selecting a joypad row through P1 makes P1 read that row; selecting
/// none or both makes it read 0.
pub proof fn law_joypad_select(m: MemoryModel, v: u8)
    requires
        m.wf(),
    ensures
        v & 0x30 == 0x10 ==> m.write(0xFF00, v).read(0xFF00) == m.keys.row(0),
        v & 0x30 == 0x20 ==> m.write(0xFF00, v).read(0xFF00) == m.keys.row(1),
        (v & 0x30 == 0 || v & 0x30 == 0x30) ==> m.write(0xFF00, v).read(0xFF00) == 0,
        m.write(0xFF00, v).keys.row(0) == m.keys.row(0),
        m.write(0xFF00, v).keys.row(1) == m.keys.row(1),
{
    reveal(MemoryModel::write_io);
}

/// P1 on its own: writing selects rows with bits 5..4; a read gives the
/// selected row, or 0 when none or both are selected; both rows start as
/// 0x0F (no button pressed).
pub proof fn law_key_select(k: Key, v: u8)
    ensures
        Key::initial().row(0) == 0x0F,
        Key::initial().row(1) == 0x0F,
        Key::initial().read() == 0,
        k.write(v).read() == if v & 0x30 == 0x10 {
            k.row(0)
        } else if v & 0x30 == 0x20 {
            k.row(1)
        } else {
            0
        },
        k.write(v).row(0) == k.row(0),
        k.write(v).row(1) == k.row(1),
{
}

/// The timer registers on their own: DIV reads 0 after any write, TIMA and
/// TMA read back what was written, TAC reads back its low three bits, and
/// a write changes no other register. At power-on DIV, TIMA and TMA read 0
/// and TAC reads 3 (stopped, 256 clocks).
pub proof fn law_timer_write_read(t: Timer, a: u16, b: u16, v: u8)
    requires
        0xFF04 <= a <= 0xFF07,
        0xFF04 <= b <= 0xFF07,
    ensures
        t.wf() ==> t.write(a, v).wf(),
        t.write(a, v).read(a) == if a == 0xFF04 {
            0
        } else if a == 0xFF07 {
            v % 8
        } else {
            v
        },
        a != b ==> t.write(a, v).read(b) == t.read(b),
        Timer::initial().wf(),
        Timer::initial().read(b) == if b == 0xFF07 {
            3u8
        } else {
            0u8
        },
{
}

/// The memory map at power-on: well formed, work RAM bank 1 selected, the
/// boot ROM mapped, and video RAM, work RAM, OAM, high RAM and IE all 0.
pub proof fn law_memory_initial(cgb: bool, a: u16)
    ensures
        MemoryModel::initial(cgb).wf(),
        MemoryModel::initial(cgb).wram_bank() == 1,
        MemoryModel::initial(cgb).rom_offset() == 0x4000,
        MemoryModel::initial(cgb).in_bios,
        MemoryModel::initial(cgb).plain(a) ==> MemoryModel::initial(cgb).read_ok(a)
            && MemoryModel::initial(cgb).read(a) == 0,
{
}

/// Writing DIV clears it; TMA reads back what was written; TAC reads back
/// its low three bits.
pub proof fn law_timer_registers(m: MemoryModel, v: u8)
    requires
        m.wf(),
    ensures
        m.write(0xFF04, v).read(0xFF04) == 0,
        m.write(0xFF05, v).read(0xFF05) == v,
        m.write(0xFF06, v).read(0xFF06) == v,
        m.write(0xFF07, v).read(0xFF07) == v % 8,
{
    reveal(MemoryModel::write_io);
}

/// With external RAM enabled and banked to plain RAM, a byte written in
/// 0xA000..=0xBFFF reads back.
pub proof fn law_eram_write_read(m: MemoryModel, a: u16, v: u8)
    requires
        m.wf(),
        0xA000 <= a < 0xC000,
        m.ram_enabled(),
        m.eram_plain(),
        m.eram_index(a) < m.eram.len(),
    ensures
        m.write_ok(a, v),
        m.write(a, v).read_ok(a),
        m.write(a, v).read(a) == v,
{
    reveal(MemoryModel::write_eram);
}

/// On an MBC3 cartridge, writing `v` in 0x2000..=0x3FFF selects ROM bank
/// `v & 0x7F` (bank 0 selects 1), which 0x4000..=0x7FFF then read.
pub proof fn law_mbc3_rom_bank(m: MemoryModel, a: u16, v: u8, b: u16)
    requires
        m.wf(),
        is_mbc3(m.carttype),
        0x2000 <= a < 0x4000,
        0x4000 <= b < 0x8000,
    ensures
        ({
            let bank: int = if v & 0x7F == 0 {
                1
            } else {
                (v & 0x7F) as int
            };
            let n = m.write(a, v);
            &&& n.rom_bank() == bank
            &&& n.rom_offset() == bank * 0x4000
            &&& n.read_ok(b) <==> bank * 0x4000 + b as int % 0x4000 < m.rom.len()
            &&& n.read_ok(b) ==> n.read(b) == m.rom[bank * 0x4000 + b as int % 0x4000]
        }),
{
    reveal(MemoryModel::write_rom_bank);
    assert(v & 0x7F <= 0x7F) by (bit_vector);
}

/// A speed switch happens once per request: the speed toggles exactly when
/// a switch was requested, and switching again changes nothing.
pub proof fn law_speed_switch(m: MemoryModel)
    ensures
        m.speed_switched().speed_switched() == m.speed_switched(),
        m.speed_switch_req ==> m.speed_switched().gbspeed != m.gbspeed,
        !m.speed_switch_req ==> m.speed_switched().gbspeed == m.gbspeed,
        !m.speed_switched().speed_switch_req,
{
}

/// The clock registers never hold more seconds than have elapsed: the
/// latch's rebasing subtraction cannot go below zero.
proof fn lemma_latched_seconds(m: MBC, e: u64)
    ensures
        m.rtc_latched(e).rtc_seconds() <= e,
{
    let days = e / 86400;
    let l = m.rtc_latched(e);
    let hi = m.rtc_day_hi;
    let b = ((days / 256) % 2) as u8;
    assert(((hi & 0xFE) | b) % 2 == b && (((hi & 0xFE) | b) | 0x80) % 2 == b) by (bit_vector)
        requires
            b <= 1,
    ;
    assert(l.rtc_day_hi % 2 == (days / 256) % 2);
    let ei = e as int;
    assert(ei % 60 + ((ei / 60) % 60) * 60 == ei % 3600) by (nonlinear_arith)
        requires
            ei >= 0,
    ;
    assert(ei % 3600 + ((ei / 3600) % 24) * 3600 == ei % 86400) by (nonlinear_arith)
        requires
            ei >= 0,
    ;
    let d = days as int;
    assert(((d / 256) % 2) * 256 + d % 256 == d % 512) by (nonlinear_arith)
        requires
            d >= 0,
    ;
    assert((d % 512) * 86400 + ei % 86400 <= ei) by (nonlinear_arith)
        requires
            ei >= 0,
            d == ei / 86400,
    ;
}

proof fn lemma_frame_eram(m: MemoryModel, a1: u16, v1: u8, a2: u16, v2: u8)
    requires
        m.wf(),
        m.write_ok(a1, v1),
        0xA000 <= a2 < 0xC000,
        0x9FFF <= a1 <= 0xC000 || a1 == 0xFF0F,
    ensures
        m.write(a1, v1).write_ok(a2, v2) == m.write_ok(a2, v2),
{
    let m2 = m.write(a1, v1);
    if a1 == 0xFF0F {
        assert(m2 == MemoryModel { interrupt_flags: v1, ..m }) by {
            reveal(MemoryModel::write_io);
        }
        assert(m2.write_eram_ok(a2, v2) == m.write_eram_ok(a2, v2));
    } else if a1 == 0x9FFF {
        assert(m2 == MemoryModel { gpu: m.gpu.write(a1, v1), ..m });
        assert(m2.write_eram_ok(a2, v2) == m.write_eram_ok(a2, v2));
    } else if a1 == 0xC000 {
        assert(m2 == MemoryModel { wram: m.wram.update(0, v1), ..m });
        assert(m2.write_eram_ok(a2, v2) == m.write_eram_ok(a2, v2));
    } else {
        assert(m2 == m.write_eram(a1, v1));
        reveal(MemoryModel::write_eram);
        if !m.mbc.ram_on {
            assert(m2 == m);
        } else if m.eram_plain() {
            assert(m2.eram.len() == m.eram.len());
            assert(m2.write_eram_ok(a2, v2) == m.write_eram_ok(a2, v2));
        } else if m.eram_rtc() {
            let i = m.mbc.rambank - 8;
            assert(m2.mbc == m.rtc_written(v1));
            lemma_rtc_set_twice(m.mbc, i, v1, v2, m2.mbc.rtc_zero);
            assert(m2.write_eram_ok(a2, v2) == m.write_eram_ok(a2, v2));
        } else {
            assert(m2 == m);
        }
    }
    assert(m2.write_ok(a2, v2) == m2.write_eram_ok(a2, v2));
    assert(m.write_ok(a2, v2) == m.write_eram_ok(a2, v2));
}

/// Setting a clock register twice leaves only the second value.
proof fn lemma_rtc_set_twice(mb: MBC, i: int, v1: u8, v2: u8, z: Option<u64>)
    ensures
        (MBC { rtc_zero: z, ..mb.rtc_set(i, v1) }).rtc_set(i, v2).rtc_seconds() == mb.rtc_set(
            i,
            v2,
        ).rtc_seconds(),
{
}

/// IF (0xFF0F) and IE (0xFFFF) are always readable and writable, and read
/// as their registers.
pub proof fn lemma_interrupt_registers(m: MemoryModel, x: u8)
    ensures
        m.read_ok(0xFF0F),
        m.read_ok(0xFFFF),
        m.write_ok(0xFF0F, x),
        m.read(0xFF0F) == m.interrupt_flags,
        m.read(0xFFFF) == m.ie,
{
}

/// Sizes that a well-formed state has.
pub proof fn lemma_wf_sizes(m: MemoryModel)
    requires
        m.wf(),
    ensures
        m.bios.len() == 0xFFFF,
        m.wram.len() == 0x8000,
        m.zram.len() == 0x80,
{
}

/// Writing IF keeps the state well formed.
pub proof fn lemma_if_write_wf(m: MemoryModel, x: u8)
    requires
        m.wf(),
    ensures
        m.write(0xFF0F, x).wf(),
        m.write(0xFF0F, x) == (MemoryModel { interrupt_flags: x, ..m }),
        m.write(0xFF0F, x).wram_bank() == m.wram_bank(),
{
    reveal(MemoryModel::write_io);
    assert(m.write(0xFF0F, x) == MemoryModel { interrupt_flags: x, ..m });
}

/// Writes to IF and to the GPU's registers change no read's outcome.
proof fn lemma_io_write_keeps_reads(m: MemoryModel, a1: u16, v1: u8, a: u16)
    requires
        a1 == 0xFF0F || a1 == 0xFF45 || a1 == 0xFF47,
    ensures
        m.write(a1, v1).read_ok(a) == m.read_ok(a),
{
    reveal(MemoryModel::write_io);
    if a1 == 0xFF0F {
        assert(m.write(a1, v1) == MemoryModel { interrupt_flags: v1, ..m });
    } else {
        assert(m.write(a1, v1) == MemoryModel { gpu: m.gpu.write(a1, v1), ..m });
    }
}

proof fn lemma_frame_oam(m: MemoryModel, a1: u16, v1: u8, v2: u8)
    requires
        a1 == 0xFF0F || a1 == 0xFF45 || a1 == 0xFF47,
    ensures
        m.write(a1, v1).oam_dma_ok(v2) == m.oam_dma_ok(v2),
{
    let m2 = m.write(a1, v1);
    if m.oam_dma_ok(v2) {
        assert forall|i: int| 0 <= i < 0xA0 implies #[trigger] m2.read_ok(
            MemoryModel::oam_source(v2, i),
        ) by {
            lemma_io_write_keeps_reads(m, a1, v1, MemoryModel::oam_source(v2, i));
        }
    }
    if m2.oam_dma_ok(v2) {
        assert forall|i: int| 0 <= i < 0xA0 implies #[trigger] m.read_ok(
            MemoryModel::oam_source(v2, i),
        ) by {
            lemma_io_write_keeps_reads(m, a1, v1, MemoryModel::oam_source(v2, i));
            assert(m2.read_ok(MemoryModel::oam_source(v2, i)));
        }
    }
}

proof fn lemma_frame_hdma(m: MemoryModel, a1: u16, v1: u8, v2: u8)
    requires
        a1 == 0xFF0F || a1 == 0xFF54 || a1 == 0xFF56,
    ensures
        m.write(a1, v1).hdma_write_ok(0xFF55, v2) == m.hdma_write_ok(0xFF55, v2),
{
    if a1 == 0xFF0F {
        assert(m.write(a1, v1) == MemoryModel { interrupt_flags: v1, ..m }) by {
            reveal(MemoryModel::write_io);
        }
    } else if a1 == 0xFF56 {
        assert(m.write(a1, v1) == m) by {
            reveal(MemoryModel::write_io);
        }
    } else {
        assert(m.write(a1, v1) == m.hdma_write(a1, v1)) by {
            reveal(MemoryModel::write_io);
        }
        assert(m.hdma_write(a1, v1).hdma == Hdma { dst_lo: v1 & 0xF0, ..m.hdma }) by {
            reveal(MemoryModel::hdma_write);
        }
    }
}

/// Whether a write goes ahead is not changed by a write just before it to
/// IF or to a neighbouring address (the other byte of a pushed or stored
/// word).
pub proof fn lemma_write_ok_frame(m: MemoryModel, a1: u16, v1: u8, a2: u16, v2: u8)
    requires
        m.wf(),
        m.write_ok(a1, v1),
        a1 == 0xFF0F || a2 as int == (a1 as int + 1) % 65536 || a1 as int == (a2 as int + 1)
            % 65536,
    ensures
        m.write(a1, v1).write_ok(a2, v2) == m.write_ok(a2, v2),
{
    if 0xA000 <= a2 < 0xC000 {
        lemma_frame_eram(m, a1, v1, a2, v2);
    } else if 0xC000 <= a2 < 0xFE00 {
        if a1 == 0xFF0F {
            assert(m.write(a1, v1) == MemoryModel { interrupt_flags: v1, ..m }) by {
                reveal(MemoryModel::write_io);
            }
        } else if a1 < 0xC000 {
            assert(m.write(a1, v1).banks == m.banks && m.write(a1, v1).wram == m.wram) by {
                reveal(MemoryModel::write_eram);
            }
        }
    } else if a2 == 0xFF46 {
        lemma_frame_oam(m, a1, v1, v2);
    } else if a2 == 0xFF55 {
        lemma_frame_hdma(m, a1, v1, v2);
    }
}

impl MemoryModel {
    /// The program counter noted for diagnostics.
    pub closed spec fn with_pc(self, pc: u16) -> MemoryModel {
        MemoryModel { pc, ..self }
    }

    /// The boot ROM unmapped.
    pub closed spec fn boot_done(self) -> MemoryModel {
        MemoryModel { in_bios: false, ..self }
    }

    /// The GPU advanced by `delay` clocks.
    pub closed spec fn gpu_cycled(self, delay: u32) -> MemoryModel {
        MemoryModel { gpu: self.gpu.cycle(delay), ..self }
    }

    pub closed spec fn timer_fits(self, delay: u32) -> bool {
        delay * 4 <= u32::MAX && self.timer.cycle_ok((delay * 4) as u32)
    }

    /// The timer advanced by four clocks per machine cycle; the interrupts
    /// that it and the GPU raised are latched into IF.
    pub closed spec fn timer_cycled(self, delay: u32) -> MemoryModel {
        let (t, irq) = self.timer.cycle((delay * 4) as u32);
        MemoryModel {
            timer: t,
            interrupt_flags: (self.interrupt_flags | irq) | self.gpu.interrupt,
            gpu: GpuModel { interrupt: 0, ..self.gpu },
            ..self
        }
    }

    /// The boot ROM and the cartridge loaded: the boot image over the start
    /// of the boot area, the cartridge appended to the ROM image, and the
    /// cartridge type taken from ROM byte 0x147.
    pub closed spec fn loaded(self, boot: Seq<u8>, cart: Seq<u8>) -> MemoryModel {
        let rom = self.rom + cart;
        MemoryModel {
            bios: boot + self.bios.subrange(boot.len() as int, self.bios.len() as int),
            rom,
            carttype: rom[0x147],
            ..self
        }
    }
}

impl Memory {
    pub fn set_pc(&mut self, pc: u16)
        requires
            old(self)@.wf(),
        ensures
            final(self)@ == old(self)@.with_pc(pc),
            final(self)@.wf(),
    {
        self.pc = pc;
    }

    /// Unmaps the boot ROM.
    pub fn leave_bios(&mut self)
        requires
            old(self)@.wf(),
        ensures
            final(self)@ == old(self)@.boot_done(),
            final(self)@.wf(),
    {
        self.in_bios = false;
    }

    /// Advances the GPU by `delay` clocks.
    pub fn cycle_gpu(&mut self, delay: u32)
        requires
            old(self)@.wf(),
        ensures
            final(self)@ == old(self)@.gpu_cycled(delay),
            final(self)@.wf(),
    {
        self.gpu.do_cycle(delay);
    }

    pub fn can_cycle_timer(&self, delay: u32) -> (r: bool)
        requires
            self@.wf(),
        ensures
            r == self@.timer_fits(delay),
    {
        delay <= 0x3FFF_FFFF && self.timer.can_cycle(delay * 4)
    }

    /// Advances the timer by four clocks per machine cycle and latches the
    /// interrupts raised into IF.
    pub fn cycle_timer(&mut self, delay: u32)
        requires
            old(self)@.wf(),
            old(self)@.timer_fits(delay),
        ensures
            final(self)@ == old(self)@.timer_cycled(delay),
            final(self)@.wf(),
    {
        self.interrupt_flags |= self.timer.do_cycle(delay * 4);
        self.interrupt_flags |= self.gpu.take_interrupt();
    }

    /// Loads the boot ROM and appends the cartridge to the ROM image.
    pub fn load_rom(&mut self, boot: &Vec<u8>, cart: &Vec<u8>)
        requires
            old(self)@.wf(),
            boot.len() <= old(self)@.bios.len(),
            old(self)@.rom.len() + cart.len() <= usize::MAX,
            old(self)@.rom.len() + cart.len() > 0x147,
        ensures
            final(self)@ == old(self)@.loaded(boot@, cart@),
            final(self)@.wf(),
    {
        let ghost m0 = self@;
        let mut index: usize = 0;
        while index < boot.len()
            invariant
                index <= boot.len(),
                boot.len() <= m0.bios.len(),
                m0 == old(self)@,
                self@ == (MemoryModel { bios: self@.bios, ..m0 }),
                self@.bios.len() == m0.bios.len(),
                forall|i: int| 0 <= i < index ==> self@.bios[i] == boot@[i],
                forall|i: int| index <= i < m0.bios.len() ==> self@.bios[i] == m0.bios[i],
            decreases boot.len() - index,
        {
            self.bios[index] = boot[index];
            index += 1;
        }
        assert(self@.bios =~= boot@ + m0.bios.subrange(boot.len() as int, m0.bios.len() as int));
        let ghost m1 = self@;
        let mut j: usize = 0;
        while j < cart.len()
            invariant
                j <= cart.len(),
                m0.rom.len() + cart.len() <= usize::MAX,
                self@ == (MemoryModel { rom: self@.rom, ..m1 }),
                m1.rom == m0.rom,
                self@.rom =~= m0.rom + cart@.subrange(0, j as int),
            decreases cart.len() - j,
        {
            self.rom.push(cart[j]);
            j += 1;
        }
        assert(self@.rom =~= m0.rom + cart@);
        self.carttype = self.rom[0x0147];
    }

    /// Whether a read of `a` is answered.
    pub fn can_read(&self, a: u16) -> (r: bool)
        requires
            self@.wf(),
        ensures
            r == self@.read_ok(a),
    {
        proof {
            lemma_addr_bits(a);
        }
        if a < 0x8000 {
            if self.in_bios && a < 0x100 {
                true
            } else if a < 0x4000 {
                (a as usize) < self.rom.len()
            } else {
                self.banks.rom_offs + (a as usize & 0x3FFF) < self.rom.len()
            }
        } else if 0xA000 <= a && a < 0xC000 {
            if !self.mbc.ram_on {
                return true;
            }
            let c = self.carttype;
            let mbc3 = 0xF <= c && c <= 0x13;
            let plain = (1 <= c && c <= 3) || (0x19 <= c && c <= 0x1E) || (mbc3
                && self.mbc.rambank <= 3);
            (!plain || self.banks.ram_offs + (a as usize & 0x1FFF) < self.eram.len()) && (!(mbc3
                && self.mbc.rambank > 3) || (8 <= self.mbc.rambank && self.mbc.rambank <= 12))
        } else if 0xC000 <= a && a < 0xFE00 {
            self.work_index(a) < self.wram.len()
        } else {
            a != 0xFF4C && a != 0xFF4E
        }
    }

    /// Whether a write of `v` at `a` goes ahead.
    pub fn can_write(&self, a: u16, v: u8) -> (r: bool)
        requires
            self@.wf(),
        ensures
            r == self@.write_ok(a, v),
    {
        proof {
            lemma_addr_bits(a);
        }
        if 0xA000 <= a && a < 0xC000 {
            if !self.mbc.ram_on {
                return true;
            }
            let c = self.carttype;
            let mbc3 = 0xF <= c && c <= 0x13;
            let plain = (1 <= c && c <= 3) || (0x19 <= c && c <= 0x1E) || (mbc3
                && self.mbc.rambank <= 3);
            if plain && self.banks.ram_offs + (a as usize & 0x1FFF) >= self.eram.len() {
                return false;
            }
            if mbc3 && self.mbc.rambank > 3 {
                if self.mbc.rambank < 8 || self.mbc.rambank > 12 {
                    return false;
                }
                if self.mbc.rtc_zero.is_some() {
                    let mut m = self.mbc;
                    m.set_rtc_reg(self.mbc.rambank - 8, v);
                    return match self.rtc_now {
                        Some(n) => n >= m.rtc_total(),
                        None => false,
                    };
                }
            }
            true
        } else if 0xC000 <= a && a < 0xFE00 {
            self.work_index(a) < self.wram.len()
        } else if a == 0xFF46 {
            let base: u16 = (v as u16) * 256;
            let mut i: u16 = 0;
            while i < 0xA0
                invariant
                    i <= 0xA0,
                    a == 0xFF46,
                    base == v * 256,
                    self@.wf(),
                    forall|j: int| 0 <= j < i ==> #[trigger] self@.read_ok(
                        MemoryModel::oam_source(v, j),
                    ),
                decreases 0xA0 - i,
            {
                if !self.can_read(base + i) {
                    assert(!self@.read_ok(MemoryModel::oam_source(v, i as int)));
                    assert(!self@.oam_dma_ok(v));
                    return false;
                }
                i += 1;
            }
            true
        } else if a == 0xFF55 && self.hdma.status != DMAType::HDMA {
            let src = (self.hdma.src_hi as u16) * 256 + (self.hdma.src_lo as u16);
            src <= 0x7FF0 || (0xA000 <= src && src <= 0xDFF0)
        } else {
            true
        }
    }
}

} // verus!
