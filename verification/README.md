# gbemu

A Game Boy (and Game Boy Color) emulator core whose behaviour is stated in
Verus contracts and proved.

## Layout

- `src/registers.rs`: the CPU registers, register pairs and the flag byte.
- `src/gpu.rs`, `src/render.rs`: the picture processor (LCD modes, its
  registers, VRAM/OAM, palettes) and the scanline renderer.
- `src/memory.rs`: the memory map, the timer, the joypad, the cartridge
  controllers (MBC1, MBC3 with its clock, MBC5), OAM and VRAM DMA.
- `src/cpu.rs`: the instruction set, interrupt dispatch and the frame loop.
  Each instruction is specified by a spec function over `CpuModel`, and
  `CPU::step` is proved to run exactly one frame of that model.
- `src/read_rom.rs`: the ROM file descriptor.
- `tests/`: tests of the library on concrete values.
- `app/`: the window, the event loop and file I/O (SDL2); not verified.

Laws of the library (register pairs, flag encoding, read-after-write of the
memory regions, undo properties of the ALU, stack push/pop, interrupt
dispatch, frame length) are public proof functions next to the code they
speak of; their names begin with `law_`.
