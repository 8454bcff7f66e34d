use gameboy_emulator::cartrige::{
    bcd_to_u8, fetch_has_battery, fetch_mbc_type, fetch_ram_banks, fetch_rom_banks, inc_bcd,
    mbc_type_of_code, new_cartridge, pad_rom, ram_banks_of_code, rom_banks_of_code,
    rom_is_supported, Mbc, MBC_Type, ROM_BANK_SIZE,
};
use gameboy_emulator::cpu::{Cpu, R8_A, R8_F};
use gameboy_emulator::emulator::{Emulator, TICKS_PER_FRAME};
use gameboy_emulator::memory::Memory;
use gameboy_emulator::ppu::{to_rgb, Ppu, SCREEN_HEIGHT, SCREEN_WIDTH};
use gameboy_emulator::timer::Timer;

/// A ROM image whose every bank is filled with its own number.
fn banked_rom(rom_banks: usize, mbc_code: u8, ram_code: u8, rom_code: u8) -> Vec<u8> {
    let mut rom = vec![0u8; rom_banks * ROM_BANK_SIZE];
    for bank in 0..rom_banks {
        for byte in 0..ROM_BANK_SIZE {
            rom[bank * ROM_BANK_SIZE + byte] = bank as u8;
        }
    }
    rom[0x147] = mbc_code;
    rom[0x148] = rom_code;
    rom[0x149] = ram_code;
    rom
}

/// A 32 KiB image without a controller.
fn plain_rom() -> Vec<u8> {
    vec![0u8; 2 * ROM_BANK_SIZE]
}

// ---------------------------------------------------------------------------
// Cartridge header
// ---------------------------------------------------------------------------

#[test]
fn header_codes_map_to_sizes_and_controllers() {
    assert_eq!(rom_banks_of_code(0x00), Some(2));
    assert_eq!(rom_banks_of_code(0x05), Some(64));
    assert_eq!(rom_banks_of_code(0x52), Some(72));
    assert_eq!(rom_banks_of_code(0x09), None);
    assert_eq!(ram_banks_of_code(0x00), Some(0));
    assert_eq!(ram_banks_of_code(0x03), Some(4));
    assert_eq!(ram_banks_of_code(0x05), Some(8));
    assert_eq!(ram_banks_of_code(0x06), None);
    assert_eq!(mbc_type_of_code(0x13), Some(MBC_Type::MBC3));
    assert_eq!(mbc_type_of_code(0x1B), Some(MBC_Type::MBC5));
    assert_eq!(mbc_type_of_code(0x06), Some(MBC_Type::MBC2));
    assert_eq!(mbc_type_of_code(0xFC), None);
}

#[test]
fn header_fetches_read_the_image() {
    let rom = banked_rom(4, 0x03, 0x03, 0x01);
    assert_eq!(fetch_rom_banks(&rom), 4);
    assert_eq!(fetch_ram_banks(&rom), 4);
    assert!(fetch_has_battery(&rom));
    assert_eq!(fetch_mbc_type(&rom), MBC_Type::MBC1);
    let rom = banked_rom(4, 0x01, 0x00, 0x01);
    assert!(!fetch_has_battery(&rom));
}

#[test]
fn rom_support_is_decided_by_the_header() {
    assert!(rom_is_supported(&plain_rom()));
    assert!(!rom_is_supported(&vec![0u8; 0x149]));
    let mut unknown = plain_rom();
    unknown[0x147] = 0xFC;
    assert!(!rom_is_supported(&unknown));
    let mut bad_size = plain_rom();
    bad_size[0x148] = 0x09;
    assert!(!rom_is_supported(&bad_size));
    // An MBC1 header announcing 4 banks on a 2-bank image.
    let mut short = plain_rom();
    short[0x147] = 0x01;
    short[0x148] = 0x01;
    assert!(!rom_is_supported(&short));
    assert!(rom_is_supported(&banked_rom(4, 0x01, 0x00, 0x01)));
}

#[test]
fn pad_rom_fills_with_ff_and_cuts() {
    let padded = pad_rom(vec![1, 2, 3], 2);
    assert_eq!(padded.len(), 2 * ROM_BANK_SIZE);
    assert_eq!(&padded[0..3], &[1, 2, 3]);
    assert_eq!(padded[3], 0xFF);
    assert_eq!(padded[2 * ROM_BANK_SIZE - 1], 0xFF);
    let cut = pad_rom(vec![7u8; 3 * ROM_BANK_SIZE], 2);
    assert_eq!(cut.len(), 2 * ROM_BANK_SIZE);
}

// ---------------------------------------------------------------------------
// Controllers
// ---------------------------------------------------------------------------

#[test]
fn romonly_ram_is_always_on() {
    let mut cart = new_cartridge(plain_rom());
    assert_eq!(cart.read_ram(0xA123), 0);
    cart.write_ram(0xA123, 0x5A);
    assert_eq!(cart.read_ram(0xA123), 0x5A);
    assert_eq!(cart.read_ram(0xA124), 0);
}

#[test]
fn ram_is_off_at_power_on_and_ignores_writes() {
    for code in [0x03u8, 0x06, 0x13, 0x1B] {
        let mut cart = new_cartridge(banked_rom(8, code, 0x03, 0x02));
        cart.write_ram(0xA000, 0x42);
        assert_eq!(cart.read_ram(0xA000), 0xFF, "type {:02X}", code);
        cart.write_rom(0x0000, 0x0A);
        assert_eq!(cart.read_ram(0xA000) & 0x0F, 0x00, "type {:02X}: the write was dropped", code);
    }
}

#[test]
fn mbc1_save_and_load_round_trip() {
    let mut cart = new_cartridge(banked_rom(4, 0x03, 0x03, 0x01));
    cart.write_rom(0x0000, 0x0A);
    cart.write_ram(0xA010, 0x77);
    let save = cart.save_ram();
    assert_eq!(save.len(), 4 * 0x2000);
    assert_eq!(save[0x10], 0x77);

    let mut other = new_cartridge(banked_rom(4, 0x03, 0x03, 0x01));
    other.load_ram(&save);
    other.write_rom(0x0000, 0x0A);
    assert_eq!(other.read_ram(0xA010), 0x77);
    assert_eq!(other.save_ram(), save);
}

#[test]
fn load_ram_pads_a_short_save_with_zeros() {
    let mut cart = new_cartridge(banked_rom(4, 0x1B, 0x02, 0x01));
    cart.load_ram(&[0x11, 0x22]);
    let save = cart.save_ram();
    assert_eq!(save.len(), 0x2000);
    assert_eq!(&save[0..3], &[0x11, 0x22, 0x00]);
}

#[test]
fn mbc2_load_keeps_low_nibbles() {
    let mut cart = new_cartridge(banked_rom(4, 0x06, 0x00, 0x01));
    cart.load_ram(&[0xAB, 0x3C]);
    cart.write_rom(0x0000, 0x0A);
    assert_eq!(cart.read_ram(0xA000), 0xFB);
    assert_eq!(cart.read_ram(0xA001), 0xFC);
    assert_eq!(cart.save_ram().len(), 512);
    assert_eq!(cart.save_ram()[0], 0x0B);
}

#[test]
fn mbc5_selects_nine_bit_banks_and_maps_bank_0() {
    let mut cart = new_cartridge(banked_rom(64, 0x19, 0x00, 0x05));
    assert_eq!(cart.read_rom(0x4000), 0, "the MBC5 starts with bank 0 in the high half");
    cart.write_rom(0x2000, 0x05);
    assert_eq!(cart.read_rom(0x4000), 5);
    cart.write_rom(0x3000, 0x01);
    // bank 0x105 wraps at 64 banks
    assert_eq!(cart.read_rom(0x4000), (0x105 % 64) as u8);
    assert_eq!(cart.read_rom(0x0000), 0);
}

#[test]
fn mbc5_ram_banks() {
    let mut cart = new_cartridge(banked_rom(4, 0x1A, 0x03, 0x01));
    cart.write_rom(0x0000, 0x0A);
    cart.write_rom(0x4000, 0x00);
    cart.write_ram(0xA000, 0x01);
    cart.write_rom(0x4000, 0x02);
    cart.write_ram(0xA000, 0x02);
    assert_eq!(cart.read_ram(0xA000), 0x02);
    cart.write_rom(0x4000, 0x00);
    assert_eq!(cart.read_ram(0xA000), 0x01);
}

#[test]
fn mbc3_clock_counts_seconds() {
    let mut cart = new_cartridge(banked_rom(4, 0x10, 0x03, 0x01));
    cart.write_rom(0x0000, 0x0A);
    cart.write_rom(0x4000, 0x08);
    // One second: 4_194_304 clock cycles, 1_048_576 machine cycles.
    for _ in 0..16 {
        cart.step(0xFFFF);
        cart.step(1);
    }
    assert_eq!(cart.read_ram(0xA000), 0x01);
}

#[test]
fn mbc3_clock_register_write_keeps_ram() {
    let mut cart = new_cartridge(banked_rom(4, 0x10, 0x03, 0x01));
    cart.write_rom(0x0000, 0x0A);
    cart.write_rom(0x4000, 0x01);
    cart.write_ram(0xA000, 0x99);
    cart.write_rom(0x4000, 0x09);
    cart.write_ram(0xA000, 0x17);
    assert_eq!(cart.read_ram(0xA000), 0x17);
    cart.write_rom(0x4000, 0x01);
    assert_eq!(cart.read_ram(0xA000), 0x99);
}

#[test]
fn mbc3_latched_clock_does_not_move() {
    let mut cart = new_cartridge(banked_rom(4, 0x10, 0x03, 0x01));
    cart.write_rom(0x0000, 0x0A);
    cart.write_rom(0x6000, 0x00);
    cart.write_rom(0x6000, 0x01);
    cart.write_rom(0x4000, 0x08);
    for _ in 0..32 {
        cart.step(0xFFFF);
        cart.step(1);
    }
    assert_eq!(cart.read_ram(0xA000), 0x00, "the latched copy still reads 0 seconds");
    cart.write_rom(0x6000, 0x00);
    cart.write_rom(0x6000, 0x01);
    assert_eq!(cart.read_ram(0xA000), 0x02, "a new latch shows the 2 seconds");
}

#[test]
fn mbc3_halted_clock_does_not_count() {
    let mut cart = new_cartridge(banked_rom(4, 0x10, 0x03, 0x01));
    cart.write_rom(0x0000, 0x0A);
    cart.write_rom(0x4000, 0x0C);
    cart.write_ram(0xA000, 0x40);
    for _ in 0..16 {
        cart.step(0xFFFF);
        cart.step(1);
    }
    cart.write_rom(0x4000, 0x08);
    assert_eq!(cart.read_ram(0xA000), 0x00);
}

#[test]
fn bcd_counting() {
    assert_eq!(inc_bcd(0x00), 0x01);
    assert_eq!(inc_bcd(0x09), 0x10);
    assert_eq!(inc_bcd(0x59), 0x60);
    assert_eq!(inc_bcd(0x99), 0x00);
    assert_eq!(bcd_to_u8(0x42), 42);
    assert_eq!(bcd_to_u8(0x59), 59);
    assert_eq!(bcd_to_u8(0x1A), 255);
    assert_eq!(bcd_to_u8(0xA1), 255);
}

// ---------------------------------------------------------------------------
// Memory map
// ---------------------------------------------------------------------------

#[test]
fn plain_memory_reads_back_writes() {
    let mut m = Memory::new(plain_rom());
    m.write_byte(0xC123, 0xAB);
    m.write_byte(0xC124, 0xCD);
    assert_eq!(m.read_byte(0xC123), 0xAB);
    assert_eq!(m.read_byte(0xC124), 0xCD);
    m.write_byte(0xFF80, 0x12);
    assert_eq!(m.read_byte(0xFF80), 0x12);
}

#[test]
fn rom_window_reads_the_cartridge() {
    let mut rom = plain_rom();
    rom[0x0150] = 0x3C;
    rom[0x4001] = 0x7E;
    let mut m = Memory::new(rom);
    assert_eq!(m.read_byte(0x0150), 0x3C);
    assert_eq!(m.read_byte(0x4001), 0x7E);
    m.write_byte(0x0150, 0x00);
    assert_eq!(m.read_byte(0x0150), 0x3C, "writes do not reach ROM");
}

#[test]
fn ppu_locks_vram_and_oam() {
    let mut m = Memory::new(plain_rom());
    m.ppu_mode = 0;
    m.write_byte(0x8000, 0x11);
    m.write_byte(0xFE00, 0x22);
    m.ppu_mode = 3;
    assert_eq!(m.read_byte(0x8000), 0xFF);
    assert_eq!(m.read_byte(0xFE00), 0xFF);
    m.write_byte(0x8000, 0x99);
    m.ppu_mode = 2;
    assert_eq!(m.read_byte(0x8000), 0x11, "VRAM is open in mode 2 and kept its byte");
    assert_eq!(m.read_byte(0xFE00), 0xFF, "OAM is locked in mode 2");
    m.ppu_mode = 0;
    assert_eq!(m.read_byte(0xFE00), 0x22);
}

#[test]
fn div_write_resets() {
    let mut m = Memory::new(plain_rom());
    m.write_byte(0xFF04, 0x55);
    assert_eq!(m.read_byte(0xFF04), 0);
    assert!(m.div_reset);
}

#[test]
fn dma_copies_a_page_into_oam() {
    let mut m = Memory::new(plain_rom());
    m.ppu_mode = 0;
    for i in 0..160u16 {
        m.write_byte(0xC100 + i, (i as u8) ^ 0x5A);
    }
    m.write_byte(0xFF46, 0xC1);
    for i in 0..160u16 {
        assert_eq!(m.read_byte(0xFE00 + i), (i as u8) ^ 0x5A);
    }
    assert_eq!(m.read_byte(0xFF46), 0xC1);
}

#[test]
fn dma_from_rom() {
    let mut rom = plain_rom();
    for i in 0..160usize {
        rom[0x1200 + i] = i as u8;
    }
    let mut m = Memory::new(rom);
    m.ppu_mode = 0;
    m.write_byte(0xFF46, 0x12);
    assert_eq!(m.read_byte(0xFE00), 0);
    assert_eq!(m.read_byte(0xFE9F), 159);
}

// ---------------------------------------------------------------------------
// CPU
// ---------------------------------------------------------------------------

fn cpu_at(program: &[u8]) -> Cpu {
    let mut c = Cpu::new(plain_rom());
    c.memory.ppu_mode = 0;
    c.stack_pointer = 0xD000;
    for (i, byte) in program.iter().enumerate() {
        c.memory.write_byte(0xC000 + i as u16, *byte);
    }
    c.program_counter = 0xC000;
    c
}

#[test]
fn cpu_starts_cleared() {
    let c = Cpu::new(plain_rom());
    assert_eq!(c.program_counter, 0);
    assert_eq!(c.stack_pointer, 0);
    assert_eq!(c.work_registers, [0u8; 8]);
    assert!(!c.ime);
    assert!(!c.halted);
}

#[test]
fn daa_after_bcd_add_gives_decimal_sum() {
    // 45 + 38 = 83
    let mut c = cpu_at(&[0x80, 0x27]);
    c.work_registers[R8_A as usize] = 0x45;
    c.work_registers[0] = 0x38;
    c.step();
    c.step();
    assert_eq!(c.work_registers[R8_A as usize], 0x83);
    assert_eq!(c.work_registers[R8_F as usize] & 0x10, 0);
    // 75 + 48 = 123: A reads 23 and C is set
    let mut c = cpu_at(&[0x80, 0x27]);
    c.work_registers[R8_A as usize] = 0x75;
    c.work_registers[0] = 0x48;
    c.step();
    c.step();
    assert_eq!(c.work_registers[R8_A as usize], 0x23);
    assert_eq!(c.work_registers[R8_F as usize] & 0x10, 0x10);
}

#[test]
fn daa_after_bcd_sub_gives_decimal_difference() {
    // 32 - 47 = -15: A reads 85 and C is set
    let mut c = cpu_at(&[0x90, 0x27]);
    c.work_registers[R8_A as usize] = 0x32;
    c.work_registers[0] = 0x47;
    c.step();
    c.step();
    assert_eq!(c.work_registers[R8_A as usize], 0x85);
    assert_eq!(c.work_registers[R8_F as usize] & 0x10, 0x10);
}

#[test]
fn flag_low_nibble_stays_clear() {
    // PUSH BC; POP AF with C = 0xFF, then SCF, INC A, ADD A, B
    let mut c = cpu_at(&[0xC5, 0xF1, 0x37, 0x3C, 0x80]);
    c.work_registers[0] = 0x12;
    c.work_registers[1] = 0xFF;
    for _ in 0..5 {
        c.step();
        assert_eq!(c.work_registers[R8_F as usize] & 0x0F, 0);
    }
}

#[test]
fn swap_twice_and_rotations_undo() {
    // SWAP B; SWAP B; RLC C; RRC C
    let mut c = cpu_at(&[0xCB, 0x30, 0xCB, 0x30, 0xCB, 0x01, 0xCB, 0x09]);
    c.work_registers[0] = 0x9C;
    c.work_registers[1] = 0xB3;
    c.step();
    assert_eq!(c.work_registers[0], 0xC9);
    c.step();
    assert_eq!(c.work_registers[0], 0x9C);
    c.step();
    assert_eq!(c.work_registers[1], 0x67);
    c.step();
    assert_eq!(c.work_registers[1], 0xB3);
}

#[test]
fn lowest_pending_interrupt_is_served_first() {
    let mut c = cpu_at(&[0x00]);
    c.ime = true;
    c.memory.write_byte(0xFFFF, 0x1F);
    c.memory.write_byte(0xFF0F, 0b0001_1100);
    assert_eq!(c.handle_interrupts(), 20);
    assert_eq!(c.program_counter, 0x50, "the timer (bit 2) goes before serial and joypad");
    assert_eq!(c.memory.read_byte(0xFF0F), 0b0001_1000);
    assert!(!c.ime);
}

#[test]
fn interrupts_disabled_serve_nothing() {
    let mut c = cpu_at(&[0x00]);
    c.memory.write_byte(0xFFFF, 0x01);
    c.memory.write_byte(0xFF0F, 0x01);
    assert_eq!(c.handle_interrupts(), 0);
    assert_eq!(c.program_counter, 0xC000);
}

// ---------------------------------------------------------------------------
// Timer
// ---------------------------------------------------------------------------

#[test]
fn timer_counts_at_the_selected_rate() {
    let mut m = Memory::new(plain_rom());
    let mut t = Timer::new();
    m.write_byte(0xFF07, 0x05); // enabled, bit 3: one count per 16 clock cycles
    m.write_byte(0xFF05, 0x00);
    t.step(4, &mut m);
    assert_eq!(m.read_byte(0xFF05), 1);
    t.step(8, &mut m);
    assert_eq!(m.read_byte(0xFF05), 3);
}

#[test]
fn timer_overflow_reloads_and_interrupts() {
    let mut m = Memory::new(plain_rom());
    let mut t = Timer::new();
    m.write_byte(0xFF07, 0x05);
    m.write_byte(0xFF05, 0xFF);
    m.write_byte(0xFF06, 0xA0);
    t.step(4, &mut m);
    assert_eq!(m.read_byte(0xFF05), 0xA0);
    assert_eq!(m.read_byte(0xFF0F) & 0x04, 0x04);
}

#[test]
fn disabled_timer_keeps_tima_and_div_counts() {
    let mut m = Memory::new(plain_rom());
    let mut t = Timer::new();
    m.write_byte(0xFF07, 0x01);
    m.write_byte(0xFF05, 0x33);
    t.step(64, &mut m);
    assert_eq!(m.read_byte(0xFF05), 0x33);
    assert_eq!(t.internal_counter, 256);
    assert_eq!(m.read_byte(0xFF04), 1);
    m.write_byte(0xFF04, 0x00);
    t.step(1, &mut m);
    assert_eq!(t.internal_counter, 4, "a DIV write restarts the counter");
    assert_eq!(m.read_byte(0xFF04), 0);
}

// ---------------------------------------------------------------------------
// PPU
// ---------------------------------------------------------------------------

#[test]
fn ppu_lines_and_vblank() {
    let mut m = Memory::new(plain_rom());
    let mut p = Ppu::new();
    m.write_byte(0xFF40, 0x80);
    p.step(20, &mut m);
    assert_eq!(m.read_byte(0xFF41) & 0x03, 3, "pixel transfer after 20 cycles");
    assert_eq!(m.ppu_mode, 3);
    p.step(50, &mut m);
    assert_eq!(m.read_byte(0xFF41) & 0x03, 0, "H-Blank after 63 cycles");
    p.step(44, &mut m);
    assert_eq!(m.read_byte(0xFF44), 1, "a line lasts 114 cycles");
    assert_eq!(p.ticks(), 0);
    for _ in 1..144 {
        p.step(114, &mut m);
    }
    assert_eq!(m.read_byte(0xFF44), 144);
    assert_eq!(m.read_byte(0xFF41) & 0x03, 1);
    assert_eq!(m.read_byte(0xFF0F) & 0x01, 0x01, "V-Blank is requested");
    for _ in 144..154 {
        p.step(114, &mut m);
    }
    assert_eq!(m.read_byte(0xFF44), 0, "LY wraps after 153");
}

#[test]
fn ppu_with_lcd_off_stays_at_line_0() {
    let mut m = Memory::new(plain_rom());
    let mut p = Ppu::new();
    m.write_byte(0xFF40, 0x00);
    p.step(114, &mut m);
    p.step(114, &mut m);
    assert_eq!(m.read_byte(0xFF44), 0);
    assert_eq!(m.read_byte(0xFF41) & 0x03, 0);
    assert_eq!(p.ticks(), 0);
}

#[test]
fn ppu_lyc_coincidence_sets_stat() {
    let mut m = Memory::new(plain_rom());
    let mut p = Ppu::new();
    m.write_byte(0xFF40, 0x80);
    m.write_byte(0xFF45, 2);
    m.write_byte(0xFF41, 0x40);
    p.step(114, &mut m);
    assert_eq!(m.read_byte(0xFF41) & 0x04, 0);
    p.step(114, &mut m);
    assert_eq!(m.read_byte(0xFF41) & 0x04, 0x04);
    assert_eq!(m.read_byte(0xFF0F) & 0x02, 0x02, "LY = LYC requests the STAT interrupt");
}

#[test]
fn ppu_draws_the_background() {
    let mut m = Memory::new(plain_rom());
    let mut p = Ppu::new();
    m.ppu_mode = 0;
    // Tile 0, row 0: every pixel has color id 1.
    m.write_byte(0x8000, 0xFF);
    m.write_byte(0x8001, 0x00);
    m.write_byte(0xFF47, 0xE4);
    m.write_byte(0xFF40, 0x91);
    assert_eq!(p.get_pixels().len(), SCREEN_WIDTH * SCREEN_HEIGHT);
    p.step(20, &mut m);
    p.step(50, &mut m);
    let pixels = p.get_pixels();
    assert!(pixels[0..SCREEN_WIDTH].iter().all(|&x| x == 1));
    assert_eq!(pixels[SCREEN_WIDTH], 0, "line 1 is not drawn yet");
}

// ---------------------------------------------------------------------------
// Console
// ---------------------------------------------------------------------------

#[test]
fn emulator_tick_runs_one_instruction() {
    let mut e = Emulator::new(plain_rom());
    let used = e.tick();
    assert_eq!(used, 1, "NOP");
    assert_eq!(e.cpu.program_counter, 1);
    assert_eq!(e.ppu.ticks(), 0, "the LCD is off at power-on");
    assert_eq!(e.timer.internal_counter, 4);
}

#[test]
fn emulator_halted_cpu_idles() {
    let mut e = Emulator::new(plain_rom());
    e.cpu.halted = true;
    assert_eq!(e.tick(), 1);
    assert_eq!(e.cpu.program_counter, 0);
}

#[test]
fn joypad_press_reads_low_and_interrupts() {
    let mut e = Emulator::new(plain_rom());
    e.cpu.memory.write_byte(0xFF00, 0x10); // buttons selected
    e.read_joypad();
    assert_eq!(e.cpu.memory.read_byte(0xFF00) & 0x0F, 0x0F);
    e.joypad.a = false;
    e.joypad.start = false;
    e.read_joypad();
    assert_eq!(e.cpu.memory.read_byte(0xFF00) & 0x0F, 0b0110);
    assert_eq!(e.cpu.memory.read_byte(0xFF0F) & 0x10, 0x10);
}

#[test]
fn joypad_directions() {
    let mut e = Emulator::new(plain_rom());
    e.cpu.memory.write_byte(0xFF00, 0x20); // directions selected
    e.joypad.up = false;
    e.read_joypad();
    assert_eq!(e.cpu.memory.read_byte(0xFF00) & 0x0F, 0b1011);
    e.cpu.memory.write_byte(0xFF00, 0x30); // nothing selected
    e.read_joypad();
    assert_eq!(e.cpu.memory.read_byte(0xFF00) & 0x0F, 0x0F);
}

#[test]
fn pixels_stay_color_ids_over_many_steps() {
    let mut m = Memory::new(plain_rom());
    let mut p = Ppu::new();
    m.ppu_mode = 0;
    for i in 0..0x1800u16 {
        m.write_byte(0x8000 + i, (i as u8).wrapping_mul(37));
    }
    for i in 0..0x400u16 {
        m.write_byte(0x9800 + i, i as u8);
    }
    for i in 0..160u16 {
        m.write_byte(0xFE00 + i, (i as u8).wrapping_mul(13));
    }
    m.write_byte(0xFF47, 0x1B);
    m.write_byte(0xFF48, 0xE4);
    m.write_byte(0xFF49, 0x27);
    m.write_byte(0xFF4A, 10);
    m.write_byte(0xFF4B, 20);
    m.write_byte(0xFF40, 0xF7);
    for k in 0..3000u16 {
        p.step(k % 7 + 1, &mut m);
    }
    let pixels = p.get_pixels();
    assert_eq!(pixels.len(), SCREEN_WIDTH * SCREEN_HEIGHT);
    assert!(pixels.iter().all(|&c| c <= 3));
    assert!(pixels.iter().any(|&c| c != 0), "something was drawn");
}

#[test]
fn to_rgb_maps_color_ids_to_greys() {
    let rgb = to_rgb(&[0, 1, 2, 3]);
    assert_eq!(rgb, vec![255, 255, 255, 192, 192, 192, 96, 96, 96, 0, 0, 0]);
    assert!(to_rgb(&[]).is_empty());
    let p = Ppu::new();
    assert_eq!(to_rgb(p.get_pixels()).len(), 3 * SCREEN_WIDTH * SCREEN_HEIGHT);
}

/// An image whose program is an endless loop of `JR -2` (3 cycles each).
fn jr_loop_rom() -> Vec<u8> {
    let mut rom = plain_rom();
    rom[0] = 0x18;
    rom[1] = 0xFE;
    rom
}

#[test]
fn frame_ticks_use_the_cycles_of_a_frame() {
    let mut e = Emulator::new(jr_loop_rom());
    e.read_joypad();
    let mut budget = TICKS_PER_FRAME;
    let mut turns = 0;
    while budget > 0 {
        assert!(e.can_tick());
        budget = e.frame_tick(budget);
        turns += 1;
    }
    assert_eq!(turns, 5852, "17556 cycles of 3-cycle jumps");
    assert_eq!(e.cpu.program_counter, 0);
    assert_eq!(e.timer.internal_counter, (70224u32 % 65536) as u16);
}

#[test]
fn frame_tick_wraps_when_a_step_overshoots() {
    let mut e = Emulator::new(jr_loop_rom());
    assert_eq!(e.frame_tick(5), 2);
    assert_eq!(e.frame_tick(2), u32::MAX);
}

#[test]
fn frame_tick_on_a_stuck_processor_leaves_the_budget() {
    let mut rom = plain_rom();
    rom[0] = 0xD3; // an opcode without an implementation: no cycle, no progress
    let mut e = Emulator::new(rom);
    assert_eq!(e.frame_tick(100), 100);
    assert!(e.can_tick());
    assert_eq!(e.cpu.program_counter, 0);
}

#[test]
fn frame_tick_refreshes_the_joypad() {
    let mut e = Emulator::new(jr_loop_rom());
    e.cpu.memory.write_byte(0xFF00, 0x10);
    e.joypad.b = false;
    e.frame_tick(TICKS_PER_FRAME);
    assert_eq!(e.cpu.memory.read_byte(0xFF00) & 0x0F, 0b1101);
}

#[test]
fn ret_after_code_between_returns_after_the_call() {
    // CALL 0xC600 at 0xC000; at 0xC600: LD B, 7; INC C; RET.
    let mut c = cpu_at(&[0xCD, 0x00, 0xC6]);
    c.memory.write_byte(0xC600, 0x06);
    c.memory.write_byte(0xC601, 0x07);
    c.memory.write_byte(0xC602, 0x0C);
    c.memory.write_byte(0xC603, 0xC9);
    c.step();
    assert_eq!(c.program_counter, 0xC600);
    c.step();
    c.step();
    assert_eq!(c.step(), 4);
    assert_eq!(c.program_counter, 0xC003);
    assert_eq!(c.stack_pointer, 0xD000);
    assert_eq!(c.work_registers[0], 7);
}
