//! A Game Boy (DMG) emulator core: cartridge memory bank controllers, the
//! memory map, the LR35902 CPU, the timer and the picture processing unit.

pub mod cartrige;
pub mod memory;
pub mod cpu;
pub mod timer;
pub mod ppu;
pub mod emulator;
