//! The MBC1 controller: up to 2 MiB of ROM and 32 KiB of RAM, a 5-bit and a
//! 2-bit bank register, and a banking mode that decides what the 2-bit
//! register selects.

use super::{fit_to_len, lemma_bank_index, lemma_bank_offset, resized, zeroed, zeros, Mbc, RAM_BANK_SIZE, ROM_BANK_SIZE};
use vstd::prelude::*;

verus! {

/// An MBC1 cartridge.  ROM and RAM are kept as flat byte vectors, bank `b`
/// starting at `b * ROM_BANK_SIZE` (resp. `b * RAM_BANK_SIZE`).
pub struct MBC1 {
    rom_data: Vec<u8>,
    ram_data: Vec<u8>,
    rom_banks: usize,
    ram_banks: usize,
    bank_low: u8,
    bank_high: u8,
    banking_mode: bool,
    ram_enable: bool,
    pub has_battery: bool,
}

/// The abstract state of an [`MBC1`] cartridge.
pub struct Mbc1State {
    pub rom: Seq<u8>,
    pub ram: Seq<u8>,
    pub rom_banks: nat,
    pub ram_banks: nat,
    pub bank_low: u8,
    pub bank_high: u8,
    pub banking_mode: bool,
    pub ram_enable: bool,
    pub has_battery: bool,
}

impl Mbc1State {
    /// The state right after power-on: ROM bank 1 mapped high, mode 0, RAM
    /// disabled and cleared.
    pub open spec fn initial(romdata: Seq<u8>, rom_banks: nat, ram_banks: nat, has_battery: bool) -> Self {
        Mbc1State {
            rom: romdata.subrange(0, (rom_banks * 0x4000) as int),
            ram: zeros(ram_banks * 0x2000),
            rom_banks,
            ram_banks,
            bank_low: 1,
            bank_high: 0,
            banking_mode: false,
            ram_enable: false,
            has_battery,
        }
    }

    pub open spec fn inv(self) -> bool {
        &&& self.rom_banks > 0
        &&& self.rom.len() == self.rom_banks * 0x4000
        &&& self.ram.len() == self.ram_banks * 0x2000
        &&& self.bank_low < 32
        &&& self.bank_high < 4
    }

    /// The ROM bank mapped at `address`: the low half shows bank 0, or in
    /// mode 1 the bank selected by the 2-bit register alone; the high half
    /// shows the bank made of both registers, where a multiple of 32 is
    /// replaced by the next bank.  The number wraps at the ROM size.
    pub open spec fn rom_bank(self, address: u16) -> int {
        let bank: int = if address < 0x4000 {
            if self.banking_mode {
                self.bank_high * 32
            } else {
                0
            }
        } else {
            let b = self.bank_high * 32 + self.bank_low;
            if b % 32 == 0 {
                b + 1
            } else {
                b
            }
        };
        bank % (self.rom_banks as int)
    }

    pub open spec fn rom_byte(self, address: u16) -> u8 {
        self.rom[self.rom_bank(address) * 0x4000 + address % 0x4000]
    }

    /// Writes to the ROM window program the registers: 0x0000..0x2000 enables
    /// RAM (low nibble 0xA), 0x2000..0x4000 sets the 5-bit register,
    /// 0x4000..0x6000 the 2-bit register and 0x6000..0x7FFF the mode.
    pub open spec fn write_rom(self, address: u16, value: u8) -> Self {
        if address < 0x2000 {
            Mbc1State { ram_enable: value & 0x0F == 0x0A, ..self }
        } else if address < 0x4000 {
            Mbc1State { bank_low: value & 0x1F, ..self }
        } else if address < 0x6000 {
            Mbc1State { bank_high: value & 0x03, ..self }
        } else if address < 0x7FFF {
            Mbc1State { banking_mode: value & 0x01 == 1, ..self }
        } else {
            self
        }
    }

    pub open spec fn ram_accessible(self) -> bool {
        self.ram_enable && self.ram_banks > 0
    }

    /// The RAM bank in use: in mode 1 the 2-bit register, in mode 0 bank 0.
    pub open spec fn ram_bank(self) -> int {
        if self.banking_mode {
            (self.bank_high as int) % (self.ram_banks as int)
        } else {
            0
        }
    }

    pub open spec fn ram_index(self, address: u16) -> int {
        self.ram_bank() * 0x2000 + (address - 0xA000)
    }

    pub open spec fn ram_byte(self, address: u16) -> u8 {
        if !self.ram_accessible() {
            0xFF
        } else {
            self.ram[self.ram_index(address)]
        }
    }

    pub open spec fn write_ram(self, address: u16, value: u8) -> Self {
        if !self.ram_accessible() {
            self
        } else {
            Mbc1State { ram: self.ram.update(self.ram_index(address), value), ..self }
        }
    }

    pub open spec fn save(self) -> Seq<u8> {
        self.ram
    }

    pub open spec fn load(self, save: Seq<u8>) -> Self {
        Mbc1State { ram: resized(save, self.ram_banks * 0x2000, 0), ..self }
    }
}

impl View for MBC1 {
    type V = Mbc1State;

    closed spec fn view(&self) -> Mbc1State {
        Mbc1State {
            rom: self.rom_data@,
            ram: self.ram_data@,
            rom_banks: self.rom_banks as nat,
            ram_banks: self.ram_banks as nat,
            bank_low: self.bank_low,
            bank_high: self.bank_high,
            banking_mode: self.banking_mode,
            ram_enable: self.ram_enable,
            has_battery: self.has_battery,
        }
    }
}

impl MBC1 {
    /// Builds the controller from the first `rom_banks` banks of the image.
    pub fn new(romdata: Vec<u8>, rom_banks: usize, ram_banks: usize, has_battery: bool) -> (cart: Self)
        requires
            rom_banks * ROM_BANK_SIZE <= romdata@.len(),
            ram_banks * RAM_BANK_SIZE <= usize::MAX,
        ensures
            cart@ == Mbc1State::initial(romdata@, rom_banks as nat, ram_banks as nat, has_battery),
            rom_banks > 0 ==> cart.inv(),
    {
        let total = romdata.len();
        let mut rom = romdata;
        rom.truncate(rom_banks * ROM_BANK_SIZE);
        let ram = zeroed(ram_banks * RAM_BANK_SIZE);
        MBC1 {
            rom_data: rom,
            ram_data: ram,
            rom_banks,
            ram_banks,
            bank_low: 1,
            bank_high: 0,
            banking_mode: false,
            ram_enable: false,
            has_battery,
        }
    }
}

impl Mbc for MBC1 {
    open spec fn inv(&self) -> bool {
        self@.inv()
    }

    fn read_rom(&self, address: u16) -> (value: u8)
        ensures
            value == self@.rom_byte(address),
    {
        let offset = (address as usize) & 0x3FFF;
        let high = self.bank_high as usize;
        let low = self.bank_low as usize;
        proof {
            lemma_bank_offset(address);
            assert(high << 5 == high * 32 && (high << 5) | low == high * 32 + low) by (bit_vector)
                requires
                    high < 4,
                    low < 32,
            ;
        }
        let mut current_bank = if address < 0x4000 {
            if self.banking_mode {
                high << 5
            } else {
                0
            }
        } else {
            let bank = (high << 5) | low;
            if bank % 0x20 == 0 {
                bank + 1
            } else {
                bank
            }
        };
        current_bank = current_bank % self.rom_banks;
        let _len = self.rom_data.len();
        proof {
            lemma_bank_index(current_bank as int, self.rom_banks as int, 0x4000, offset as int);
        }
        self.rom_data[current_bank * ROM_BANK_SIZE + offset]
    }

    fn write_rom(&mut self, address: u16, value: u8)
        ensures
            final(self)@ == old(self)@.write_rom(address, value),
    {
        assert(value & 0x1F < 32 && value & 0x03 < 4) by (bit_vector);
        if address < 0x2000 {
            self.ram_enable = (value & 0xF) == 0xA;
        } else if address < 0x4000 {
            self.bank_low = value & 0x1F;
        } else if address < 0x6000 {
            self.bank_high = value & 0x03;
        } else if address < 0x7FFF {
            self.banking_mode = value & 0x1 == 1;
        }
    }

    fn read_ram(&mut self, address: u16) -> (value: u8)
        ensures
            value == old(self)@.ram_byte(address),
            final(self)@ == old(self)@,
    {
        if !self.ram_enable || self.ram_banks == 0 {
            return 0xFF;
        }
        let offset = (address - 0xA000) as usize;
        let current_bank: usize = if self.banking_mode {
            (self.bank_high as usize) % self.ram_banks
        } else {
            0
        };
        let _len = self.ram_data.len();
        proof {
            lemma_bank_index(current_bank as int, self.ram_banks as int, 0x2000, offset as int);
        }
        self.ram_data[current_bank * RAM_BANK_SIZE + offset]
    }

    fn write_ram(&mut self, address: u16, value: u8)
        ensures
            final(self)@ == old(self)@.write_ram(address, value),
    {
        if !self.ram_enable || self.ram_banks == 0 {
            return;
        }
        let offset = (address - 0xA000) as usize;
        let current_bank: usize = if self.banking_mode {
            (self.bank_high as usize) % self.ram_banks
        } else {
            0
        };
        let _len = self.ram_data.len();
        proof {
            lemma_bank_index(current_bank as int, self.ram_banks as int, 0x2000, offset as int);
        }
        self.ram_data.set(current_bank * RAM_BANK_SIZE + offset, value);
    }

    fn step(&mut self, _m_cycles: u16)
        ensures
            final(self)@ == old(self)@,
    {
    }

    fn save_ram(&self) -> (save: Vec<u8>)
        ensures
            save@ == self@.save(),
    {
        self.ram_data.clone()
    }

    fn load_ram(&mut self, save: &[u8])
        ensures
            final(self)@ == old(self)@.load(save@),
    {
        let data = vstd::slice::slice_to_vec(save);
        let len = self.ram_data.len();
        self.ram_data = fit_to_len(data, len, 0);
    }
}

} // verus!
