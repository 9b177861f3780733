pub mod registers;
pub mod gpu;
pub mod render;
pub mod memory;
pub mod cpu;
pub mod read_rom;
