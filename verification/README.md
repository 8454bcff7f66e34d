# gameboy_emulator

A Game Boy (DMG) emulator whose core is verified with Verus.

- `src/` is the verified library. Each component has a mathematical model
  (`CpuState`, `MemState`, `CartState`, `PpuState`, the timer spec) and every
  executable function is proved to refine it.
  - `cartrige.rs` and `cartrige/`: header decoding and the bank controllers
    (ROM only, MBC1, MBC2, MBC3 with its real time clock, MBC5).
  - `memory.rs`: the address space, PPU locks, DIV and OAM DMA.
  - `cpu.rs` and `cpu/`: the LR35902 instruction set and interrupts.
  - `timer.rs`, `ppu.rs`: the timer, the picture processing unit and the
    framebuffer as grey RGB bytes.
  - `emulator.rs`: the joypad, one step of the main loop and one turn of the
    frame loop.
  - Public `law_*` proof functions state properties that span operations
    (read after write, save/load round trip, push/pop, call/ret, DAA, ...).
- `app/` is the SDL2 front end: window, keyboard, files and frame timing.
- `tests/` runs the library on concrete programs and cartridges.
