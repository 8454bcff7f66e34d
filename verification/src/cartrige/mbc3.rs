//! The MBC3 controller: up to 2 MiB of ROM, 32 KiB of RAM and a real time
//! clock whose five registers (seconds, minutes, hours, low 8 bits of the
//! day counter, and a control byte) are mapped in place of RAM.

use super::{fit_to_len, lemma_bank_index, lemma_bank_offset, resized, zeroed, zeros, Mbc, RAM_BANK_SIZE, ROM_BANK_SIZE, T_CYCLES_PER_RTC_SECOND};
use crate::cpu::alu8::{bcd_number, is_bcd};
use vstd::prelude::*;

verus! {

/// An MBC3 cartridge.  ROM and RAM are kept as flat byte vectors, bank `b`
/// starting at `b * ROM_BANK_SIZE` (resp. `b * RAM_BANK_SIZE`).
pub struct MBC3 {
    rom_data: Vec<u8>,
    ram_data: Vec<u8>,
    rom_banks: usize,
    ram_banks: usize,
    rom_bank: u8,
    ram_bank: u8,
    ram_enable: bool,
    rtc_registers: [u8; 5],
    rtc_cycles: u32,
    latched: [u8; 5],
    latch_enabled: bool,
    latch_prev: u8,
    pub has_battery: bool,
}

/// The abstract state of an [`MBC3`] cartridge.
pub struct Mbc3State {
    pub rom: Seq<u8>,
    pub ram: Seq<u8>,
    pub rom_banks: nat,
    pub ram_banks: nat,
    pub rom_bank: u8,
    pub ram_bank: u8,
    pub ram_enable: bool,
    pub rtc: Seq<u8>,
    pub rtc_cycles: nat,
    pub latched: Seq<u8>,
    pub latch_enabled: bool,
    pub latch_prev: u8,
    pub has_battery: bool,
}

/// The binary value of a two-digit BCD byte, 255 when a digit is not decimal.
pub open spec fn bcd_value(bcd: u8) -> u8 {
    let high = bcd >> 4;
    let low = bcd & 0x0F;
    if high > 9 || low > 9 {
        255
    } else {
        (high * 10 + low) as u8
    }
}

/// Adds one to the low BCD digit, carrying into the high digit, which wraps
/// from 10 to 0.  The digits are recombined as `high << 4 | low`.
pub open spec fn bcd_incremented(bcd: u8) -> u8 {
    let low = ((bcd & 0x0F) + 1) as u8;
    let high = bcd >> 4;
    let (low, high) = if low == 10 {
        (0u8, (high + 1) as u8)
    } else {
        (low, high)
    };
    let high = if high == 10 {
        0u8
    } else {
        high
    };
    (high << 4) | low
}

/// One second of the clock: the seconds count up and wrap from 60 into the
/// minutes, the minutes wrap from 60 into the hours, the hours wrap from 24
/// into the 9-bit day counter (low 8 bits in register 3, bit 8 in bit 0 of
/// register 4), and a day counter overflow sets the carry, bit 7 of register
/// 4.  A register that holds 60 (resp. 24) wraps on the next second even when
/// the register below it did not.
pub open spec fn rtc_tick(rtc: Seq<u8>) -> Seq<u8> {
    let s = bcd_incremented(rtc[0]);
    let second_wrap = bcd_value(s) == 60;
    let r0: u8 = if second_wrap { 0 } else { s };
    let m = if second_wrap { bcd_incremented(rtc[1]) } else { rtc[1] };
    let minute_wrap = bcd_value(m) == 60;
    let r1: u8 = if minute_wrap { 0 } else { m };
    let h = if minute_wrap { bcd_incremented(rtc[2]) } else { rtc[2] };
    let hour_wrap = bcd_value(h) == 24;
    let r2: u8 = if hour_wrap { 0 } else { h };
    let r3: u8 = if hour_wrap { ((rtc[3] + 1) % 256) as u8 } else { rtc[3] };
    let day_overflow = hour_wrap && rtc[3] == 255;
    let r4: u8 = if !day_overflow {
        rtc[4]
    } else if rtc[4] & 0x01 == 1 {
        (rtc[4] & 0xFE) | 0x80
    } else {
        rtc[4] | 0x01
    };
    seq![r0, r1, r2, r3, r4]
}

/// `n` seconds of the clock.
pub open spec fn rtc_ticks(rtc: Seq<u8>, n: nat) -> Seq<u8>
    decreases n,
{
    if n == 0 {
        rtc
    } else {
        rtc_tick(rtc_ticks(rtc, (n - 1) as nat))
    }
}

impl Mbc3State {
    /// The state right after power-on: bank registers 0, RAM disabled and
    /// cleared, the clock at zero and running.
    pub open spec fn initial(romdata: Seq<u8>, rom_banks: nat, ram_banks: nat, has_battery: bool) -> Self {
        Mbc3State {
            rom: romdata.subrange(0, (rom_banks * 0x4000) as int),
            ram: zeros(ram_banks * 0x2000),
            rom_banks,
            ram_banks,
            rom_bank: 0,
            ram_bank: 0,
            ram_enable: false,
            rtc: seq![0u8, 0u8, 0u8, 0u8, 0u8],
            rtc_cycles: 0,
            latched: seq![0u8, 0u8, 0u8, 0u8, 0u8],
            latch_enabled: false,
            latch_prev: 0,
            has_battery,
        }
    }

    pub open spec fn inv(self) -> bool {
        &&& self.rom_banks >= 2
        &&& self.rom.len() == self.rom_banks * 0x4000
        &&& self.ram.len() == self.ram_banks * 0x2000
        &&& self.rtc.len() == 5
        &&& self.latched.len() == 5
        &&& self.rtc_cycles < 4_194_304
    }

    /// The ROM bank mapped in the high half: the 7-bit register, 0 meaning
    /// bank 1, otherwise wrapped at the ROM size.
    pub open spec fn high_bank(self) -> int {
        if self.rom_bank == 0 {
            1
        } else {
            (self.rom_bank as int) % (self.rom_banks as int)
        }
    }

    pub open spec fn rom_byte(self, address: u16) -> u8 {
        if address < 0x4000 {
            self.rom[address as int]
        } else {
            self.rom[self.high_bank() * 0x4000 + address % 0x4000]
        }
    }

    /// 0x0000..=0x1FFF enables RAM and clock (low nibble 0xA), 0x2000..=0x3FFF
    /// sets the ROM bank, 0x4000..=0x5FFF selects a RAM bank or a clock
    /// register, and in 0x6000..=0x7FFF writing 0 then 1 latches the clock:
    /// after a 0, a 1 copies the clock into the latch and turns latching on,
    /// any other value turns it off.
    pub open spec fn write_rom(self, address: u16, value: u8) -> Self {
        if address <= 0x1FFF {
            Mbc3State { ram_enable: value & 0x0F == 0x0A, ..self }
        } else if address <= 0x3FFF {
            Mbc3State { rom_bank: value & 0x7F, ..self }
        } else if address <= 0x5FFF {
            Mbc3State { ram_bank: value, ..self }
        } else if address <= 0x7FFF {
            let latched = if self.latch_prev == 0 {
                if value == 1 {
                    Mbc3State { latch_enabled: true, latched: self.rtc, ..self }
                } else {
                    Mbc3State { latch_enabled: false, ..self }
                }
            } else {
                self
            };
            Mbc3State { latch_prev: value, ..latched }
        } else {
            self
        }
    }

    pub open spec fn ram_index(self, address: u16) -> int {
        ((self.ram_bank as int) % (self.ram_banks as int)) * 0x2000 + (address - 0xA000)
    }

    /// With RAM enabled, selections 0..=7 read a RAM bank (0xFF without RAM),
    /// 8..=0xC a clock register (the latched copy while latching is on), and
    /// any other selection 0xFF.
    pub open spec fn ram_byte(self, address: u16) -> u8 {
        if !self.ram_enable {
            0xFF
        } else if self.ram_bank <= 0x07 {
            if self.ram_banks == 0 {
                0xFF
            } else {
                self.ram[self.ram_index(address)]
            }
        } else if self.ram_bank <= 0x0C {
            let reg = self.ram_bank - 8;
            if self.latch_enabled {
                self.latched[reg]
            } else {
                self.rtc[reg]
            }
        } else {
            0xFF
        }
    }

    /// Reading the control register clears the day counter carry (bit 7) of
    /// the running clock.
    pub open spec fn after_ram_read(self, address: u16) -> Self {
        if self.ram_enable && self.ram_bank == 0x0C {
            Mbc3State { rtc: self.rtc.update(4, self.rtc[4] & 0x7F), ..self }
        } else {
            self
        }
    }

    /// Writes go to the selected RAM bank, or set a clock register (and its
    /// latched copy while latching is on).
    pub open spec fn write_ram(self, address: u16, value: u8) -> Self {
        if !self.ram_enable {
            self
        } else if self.ram_bank <= 0x07 {
            if self.ram_banks == 0 {
                self
            } else {
                Mbc3State { ram: self.ram.update(self.ram_index(address), value), ..self }
            }
        } else if self.ram_bank <= 0x0C {
            let reg = self.ram_bank - 8;
            let latched = if self.latch_enabled {
                self.latched.update(reg, value)
            } else {
                self.latched
            };
            Mbc3State { rtc: self.rtc.update(reg, value), latched, ..self }
        } else {
            self
        }
    }

    /// The clock is stopped while bit 6 of the control register is set.
    pub open spec fn clock_halted(self) -> bool {
        (self.rtc[4] >> 6) & 0x01 == 1
    }

    /// A stopped clock drops its partial second; a running one counts 4 clock
    /// cycles per machine cycle and ticks once per full second.
    pub open spec fn step(self, m_cycles: u16) -> Self {
        if self.clock_halted() {
            Mbc3State { rtc_cycles: 0, ..self }
        } else {
            let total = self.rtc_cycles + 4 * m_cycles;
            Mbc3State {
                rtc_cycles: (total % 4_194_304) as nat,
                rtc: rtc_ticks(self.rtc, (total / 4_194_304) as nat),
                ..self
            }
        }
    }

    pub open spec fn save(self) -> Seq<u8> {
        self.ram
    }

    pub open spec fn load(self, save: Seq<u8>) -> Self {
        Mbc3State { ram: resized(save, self.ram_banks * 0x2000, 0), ..self }
    }
}

/// Counting up a BCD byte with two decimal digits adds one to the number it
/// writes, 99 wrapping to 0.
pub proof fn law_bcd_increment(bcd: u8)
    requires
        bcd_value(bcd) != 255,
    ensures
        bcd_value(bcd_incremented(bcd)) == (bcd_value(bcd) + 1) % 100,
{
    let low = ((bcd & 0x0F) + 1) as u8;
    let high = bcd >> 4;
    let low2: u8 = if low == 10 { 0 } else { low };
    let high2: u8 = if low == 10 { (high + 1) as u8 } else { high };
    let high3: u8 = if high2 == 10 { 0 } else { high2 };
    assert(bcd_incremented(bcd) == (high3 << 4) | low2);
    assert(bcd_value((high3 << 4) | low2) == (bcd_value(bcd) + 1) % 100) by (bit_vector)
        requires
            bcd_value(bcd) != 255,
            low == ((bcd & 0x0F) + 1) as u8,
            high == bcd >> 4,
            low2 == if low == 10 { 0u8 } else { low },
            high2 == if low == 10 { (high + 1) as u8 } else { high },
            high3 == if high2 == 10 { 0u8 } else { high2 },
    ;
}

/// The value of a clock register: its two decimal digits when both are
/// decimal, 255 otherwise.
proof fn lemma_bcd_value_digits(b: u8)
    ensures
        bcd_value(b) == if is_bcd(b) { bcd_number(b) } else { 255 },
        is_bcd(b) ==> bcd_number(b) <= 99,
{
    assert(b >> 4 == b / 16 && b & 0x0F == b % 16) by (bit_vector);
}

/// Whether the clock registers hold a valid time of day: seconds and
/// minutes below 60 and hours below 24, each as two decimal digits.
pub open spec fn clock_valid(rtc: Seq<u8>) -> bool {
    &&& rtc.len() == 5
    &&& is_bcd(rtc[0]) && bcd_number(rtc[0]) < 60
    &&& is_bcd(rtc[1]) && bcd_number(rtc[1]) < 60
    &&& is_bcd(rtc[2]) && bcd_number(rtc[2]) < 24
}

/// The time of day the clock registers hold, in seconds since midnight.
pub open spec fn clock_seconds(rtc: Seq<u8>) -> int {
    bcd_number(rtc[2]) * 3600 + bcd_number(rtc[1]) * 60 + bcd_number(rtc[0])
}

/// Counting up one digit pair of a valid clock: the next number, as two
/// decimal digits.
proof fn lemma_digit_pair_step(b: u8)
    requires
        is_bcd(b),
        bcd_number(b) < 99,
    ensures
        is_bcd(bcd_incremented(b)),
        bcd_number(bcd_incremented(b)) == bcd_number(b) + 1,
{
    lemma_bcd_value_digits(b);
    law_bcd_increment(b);
    lemma_bcd_value_digits(bcd_incremented(b));
}

/// A second of the clock: a valid time of day stays valid and moves on by
/// one second (seconds carry into the minutes at 60, minutes into the hours
/// at 60, hours into the day counter at 24), wrapping at midnight, when the
/// low 8 bits of the day counter count up by one.
pub proof fn law_rtc_tick_adds_a_second(rtc: Seq<u8>)
    requires
        clock_valid(rtc),
    ensures
        clock_valid(rtc_tick(rtc)),
        clock_seconds(rtc_tick(rtc)) == (clock_seconds(rtc) + 1) % 86400,
        rtc_tick(rtc)[3] == if clock_seconds(rtc) == 86399 {
            ((rtc[3] + 1) % 256) as u8
        } else {
            rtc[3]
        },
{
    lemma_bcd_value_digits(0);
    let s = bcd_incremented(rtc[0]);
    lemma_digit_pair_step(rtc[0]);
    lemma_bcd_value_digits(s);
    let second_wrap = bcd_value(s) == 60;
    assert(second_wrap == (bcd_number(rtc[0]) == 59));
    let m = if second_wrap { bcd_incremented(rtc[1]) } else { rtc[1] };
    if second_wrap {
        lemma_digit_pair_step(rtc[1]);
    }
    lemma_bcd_value_digits(m);
    let minute_wrap = bcd_value(m) == 60;
    assert(minute_wrap == (second_wrap && bcd_number(rtc[1]) == 59));
    let h = if minute_wrap { bcd_incremented(rtc[2]) } else { rtc[2] };
    if minute_wrap {
        lemma_digit_pair_step(rtc[2]);
    }
    lemma_bcd_value_digits(h);
    let hour_wrap = bcd_value(h) == 24;
    assert(hour_wrap == (minute_wrap && bcd_number(rtc[2]) == 23));
    let t = rtc_tick(rtc);
    assert(t[0] == if second_wrap { 0u8 } else { s });
    assert(t[1] == if minute_wrap { 0u8 } else { m });
    assert(t[2] == if hour_wrap { 0u8 } else { h });
    assert(hour_wrap == (clock_seconds(rtc) == 86399));
}

/// `n` seconds of a valid clock move the time of day on by `n` seconds,
/// modulo a day (so 60 seconds add one minute).
pub proof fn law_rtc_ticks_add_seconds(rtc: Seq<u8>, n: nat)
    requires
        clock_valid(rtc),
    ensures
        clock_valid(rtc_ticks(rtc, n)),
        clock_seconds(rtc_ticks(rtc, n)) == (clock_seconds(rtc) + n) % 86400,
    decreases n,
{
    if n > 0 {
        law_rtc_ticks_add_seconds(rtc, (n - 1) as nat);
        law_rtc_tick_adds_a_second(rtc_ticks(rtc, (n - 1) as nat));
        vstd::arithmetic::div_mod::lemma_add_mod_noop(clock_seconds(rtc) + n - 1, 1, 86400);
    }
}

/// Writing a clock register leaves the external RAM alone, and reading the
/// register gives back the value written.
pub proof fn law_mbc3_clock_write(s: Mbc3State, address: u16, value: u8)
    requires
        s.inv(),
        s.ram_enable,
        0x08 <= s.ram_bank <= 0x0C,
    ensures
        s.write_ram(address, value).ram == s.ram,
        s.write_ram(address, value).ram_byte(address) == value,
{
}

/// While latching is on, the clock registers read the latched copy, however
/// long the clock runs.
pub proof fn law_mbc3_latch_holds(s: Mbc3State, address: u16, m_cycles: u16)
    requires
        s.latch_enabled,
        0x08 <= s.ram_bank <= 0x0C,
    ensures
        s.step(m_cycles).ram_byte(address) == s.ram_byte(address),
{
}

/// A stopped clock (bit 6 of the control register) does not count.
pub proof fn law_mbc3_halted_clock(s: Mbc3State, m_cycles: u16)
    requires
        s.clock_halted(),
    ensures
        s.step(m_cycles).rtc == s.rtc,
        s.step(m_cycles).rtc_cycles == 0,
{
}

impl View for MBC3 {
    type V = Mbc3State;

    closed spec fn view(&self) -> Mbc3State {
        Mbc3State {
            rom: self.rom_data@,
            ram: self.ram_data@,
            rom_banks: self.rom_banks as nat,
            ram_banks: self.ram_banks as nat,
            rom_bank: self.rom_bank,
            ram_bank: self.ram_bank,
            ram_enable: self.ram_enable,
            rtc: self.rtc_registers@,
            rtc_cycles: self.rtc_cycles as nat,
            latched: self.latched@,
            latch_enabled: self.latch_enabled,
            latch_prev: self.latch_prev,
            has_battery: self.has_battery,
        }
    }
}

/// Adds one second's worth to a BCD clock digit pair.
pub fn inc_bcd(bcd: u8) -> (next: u8)
    ensures
        next == bcd_incremented(bcd),
{
    let mut low_bcd = bcd & 0x0F;
    let mut high_bcd = bcd >> 4;
    assert(low_bcd < 16 && high_bcd < 16) by (bit_vector)
        requires
            low_bcd == bcd & 0x0F,
            high_bcd == bcd >> 4,
    ;
    low_bcd += 1;
    if low_bcd == 0b1010 {
        low_bcd = 0;
        high_bcd += 1;
    }
    if high_bcd == 0b1010 {
        high_bcd = 0;
    }
    (high_bcd << 4) | low_bcd
}

/// Converts a BCD byte to binary; 255 when a digit is not decimal.
pub fn bcd_to_u8(bcd: u8) -> (value: u8)
    ensures
        value == bcd_value(bcd),
{
    let high = bcd >> 4;
    let low = bcd & 0x0F;
    if high > 9 || low > 9 {
        return 255;
    }
    high * 10 + low
}

impl MBC3 {
    /// Builds the controller from the first `rom_banks` banks of the image.
    pub fn new(romdata: Vec<u8>, rom_banks: usize, ram_banks: usize, has_battery: bool) -> (cart: Self)
        requires
            rom_banks * ROM_BANK_SIZE <= romdata@.len(),
            ram_banks * RAM_BANK_SIZE <= usize::MAX,
        ensures
            cart@ == Mbc3State::initial(romdata@, rom_banks as nat, ram_banks as nat, has_battery),
            rom_banks >= 2 ==> cart.inv(),
    {
        let _total = romdata.len();
        let mut rom = romdata;
        rom.truncate(rom_banks * ROM_BANK_SIZE);
        let ram = zeroed(ram_banks * RAM_BANK_SIZE);
        let rtc = [0u8; 5];
        let latched = [0u8; 5];
        assert(rtc@ =~= seq![0u8, 0u8, 0u8, 0u8, 0u8]);
        assert(latched@ =~= seq![0u8, 0u8, 0u8, 0u8, 0u8]);
        MBC3 {
            rom_data: rom,
            ram_data: ram,
            rom_banks,
            ram_banks,
            rom_bank: 0,
            ram_bank: 0,
            ram_enable: false,
            rtc_registers: rtc,
            rtc_cycles: 0,
            latched,
            latch_enabled: false,
            latch_prev: 0,
            has_battery,
        }
    }

    fn is_halted(&self) -> (halted: bool)
        ensures
            halted == self@.clock_halted(),
    {
        (self.rtc_registers[4] >> 6) & 0x01 == 1
    }

    fn tick_second(&mut self)
        ensures
            final(self)@ == (Mbc3State { rtc: rtc_tick(old(self)@.rtc), ..old(self)@ }),
    {
        let ghost old_rtc = self.rtc_registers@;
        let mut regs = self.rtc_registers;
        let mut days_overflow: bool = false;
        regs[0] = inc_bcd(regs[0]);
        let current_seconds = bcd_to_u8(regs[0]);
        if current_seconds == 60 {
            regs[0] = 0;
            regs[1] = inc_bcd(regs[1]);
        }
        let current_minutes = bcd_to_u8(regs[1]);
        if current_minutes == 60 {
            regs[1] = 0;
            regs[2] = inc_bcd(regs[2]);
        }
        let current_hours = bcd_to_u8(regs[2]);
        if current_hours == 24 {
            regs[2] = 0;
            let (low, overflow) = match regs[3].checked_add(1) {
                Some(v) => (v, false),
                None => (0u8, true),
            };
            regs[3] = low;
            days_overflow = overflow;
        }
        if days_overflow {
            if regs[4] & 0x01 == 1 {
                regs[4] = (regs[4] & 0xFE) | 0x80;
            } else {
                regs[4] = regs[4] | 0x01;
            }
        }
        self.rtc_registers = regs;
        assert(self.rtc_registers@ =~= rtc_tick(old_rtc));
    }
}

impl Mbc for MBC3 {
    open spec fn inv(&self) -> bool {
        self@.inv()
    }

    fn write_rom(&mut self, address: u16, value: u8)
        ensures
            final(self)@ == old(self)@.write_rom(address, value),
    {
        if address <= 0x1FFF {
            self.ram_enable = (value & 0xF) == 0xA;
        } else if address <= 0x3FFF {
            self.rom_bank = value & 0x7F;
        } else if address <= 0x5FFF {
            self.ram_bank = value;
        } else if address <= 0x7FFF {
            if self.latch_prev == 0 {
                if value == 1 {
                    self.latch_enabled = true;
                    self.latched = self.rtc_registers;
                } else {
                    self.latch_enabled = false;
                }
            }
            self.latch_prev = value;
        }
    }

    fn read_rom(&self, address: u16) -> (value: u8)
        ensures
            value == self@.rom_byte(address),
    {
        let _len = self.rom_data.len();
        if address < 0x4000 {
            return self.rom_data[address as usize];
        }
        let offset = (address as usize) & 0x3FFF;
        proof {
            lemma_bank_offset(address);
        }
        if self.rom_bank == 0 {
            return self.rom_data[ROM_BANK_SIZE + offset];
        }
        let current_bank = (self.rom_bank as usize) % self.rom_banks;
        proof {
            lemma_bank_index(current_bank as int, self.rom_banks as int, 0x4000, offset as int);
        }
        self.rom_data[current_bank * ROM_BANK_SIZE + offset]
    }

    fn read_ram(&mut self, address: u16) -> (value: u8)
        ensures
            value == old(self)@.ram_byte(address),
            final(self)@ == old(self)@.after_ram_read(address),
    {
        let offset = address - 0xA000;
        if !self.ram_enable {
            return 0xFF;
        }
        if self.ram_bank <= 0x07 {
            if self.ram_banks == 0 {
                return 0xFF;
            }
            let current_bank = (self.ram_bank as usize) % self.ram_banks;
            let _len = self.ram_data.len();
            proof {
                lemma_bank_index(current_bank as int, self.ram_banks as int, 0x2000, offset as int);
            }
            self.ram_data[current_bank * RAM_BANK_SIZE + offset as usize]
        } else if self.ram_bank <= 0x0C {
            let current_register = (self.ram_bank - 0x08) as usize;
            let value = if self.latch_enabled {
                self.latched[current_register]
            } else {
                self.rtc_registers[current_register]
            };
            if current_register == 4 {
                self.rtc_registers[4] = self.rtc_registers[4] & 0x7F;
            }
            value
        } else {
            255
        }
    }

    fn write_ram(&mut self, address: u16, value: u8)
        ensures
            final(self)@ == old(self)@.write_ram(address, value),
    {
        let offset = address - 0xA000;
        if !self.ram_enable {
            return;
        }
        if self.ram_bank <= 0x07 {
            if self.ram_banks == 0 {
                return;
            }
            let current_bank = (self.ram_bank as usize) % self.ram_banks;
            let _len = self.ram_data.len();
            proof {
                lemma_bank_index(current_bank as int, self.ram_banks as int, 0x2000, offset as int);
            }
            self.ram_data.set(current_bank * RAM_BANK_SIZE + offset as usize, value);
        } else if self.ram_bank <= 0x0C {
            let current_register = (self.ram_bank - 0x08) as usize;
            self.rtc_registers[current_register] = value;
            if self.latch_enabled {
                self.latched[current_register] = value;
            }
        }
    }

    fn step(&mut self, m_cycles: u16)
        ensures
            final(self)@ == old(self)@.step(m_cycles),
    {
        if self.is_halted() {
            self.rtc_cycles = 0;
            return;
        }
        let ghost total: int = self.rtc_cycles + 4 * m_cycles;
        let ghost start = *self;
        self.rtc_cycles = self.rtc_cycles + 4 * (m_cycles as u32);
        let ghost mut seconds: nat = 0;
        while self.rtc_cycles >= T_CYCLES_PER_RTC_SECOND
            invariant
                self.rtc_cycles + seconds * 4_194_304 == total,
                total < 2 * 4_194_304,
                self@ == (Mbc3State {
                    rtc_cycles: self.rtc_cycles as nat,
                    rtc: rtc_ticks(start@.rtc, seconds),
                    ..start@
                }),
            decreases self.rtc_cycles,
        {
            self.rtc_cycles = self.rtc_cycles - T_CYCLES_PER_RTC_SECOND;
            self.tick_second();
            proof {
                seconds = seconds + 1;
            }
        }
        assert(total / 4_194_304 == seconds && total % 4_194_304 == self.rtc_cycles);
    }

    fn save_ram(&self) -> (save: Vec<u8>)
        ensures
            save@ == self@.save(),
    {
        self.ram_data.clone()
    }

    fn load_ram(&mut self, save: &[u8])
        ensures
            final(self)@ == old(self)@.load(save@),
    {
        let data = vstd::slice::slice_to_vec(save);
        let len = self.ram_data.len();
        self.ram_data = fit_to_len(data, len, 0);
    }
}

} // verus!
