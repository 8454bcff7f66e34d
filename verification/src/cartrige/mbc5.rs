//! The MBC5 controller: up to 8 MiB of ROM (a 9-bit bank number) and 128 KiB
//! of RAM.

use super::{fit_to_len, lemma_bank_index, lemma_bank_offset, resized, zeroed, zeros, Mbc, RAM_BANK_SIZE, ROM_BANK_SIZE};
use vstd::prelude::*;

verus! {

/// An MBC5 cartridge.  ROM and RAM are kept as flat byte vectors, bank `b`
/// starting at `b * ROM_BANK_SIZE` (resp. `b * RAM_BANK_SIZE`).
pub struct MBC5 {
    rom_data: Vec<u8>,
    ram_data: Vec<u8>,
    rom_banks: usize,
    ram_banks: usize,
    rom_bank_low: u8,
    rom_bank_high: u8,
    ram_bank: u8,
    ram_enable: bool,
    pub has_battery: bool,
}

/// The abstract state of an [`MBC5`] cartridge.
pub struct Mbc5State {
    pub rom: Seq<u8>,
    pub ram: Seq<u8>,
    pub rom_banks: nat,
    pub ram_banks: nat,
    pub rom_bank_low: u8,
    pub rom_bank_high: u8,
    pub ram_bank: u8,
    pub ram_enable: bool,
    pub has_battery: bool,
}

impl Mbc5State {
    /// The state right after power-on: bank registers 0, RAM disabled and
    /// cleared.
    pub open spec fn initial(romdata: Seq<u8>, rom_banks: nat, ram_banks: nat, has_battery: bool) -> Self {
        Mbc5State {
            rom: romdata.subrange(0, (rom_banks * 0x4000) as int),
            ram: zeros(ram_banks * 0x2000),
            rom_banks,
            ram_banks,
            rom_bank_low: 0,
            rom_bank_high: 0,
            ram_bank: 0,
            ram_enable: false,
            has_battery,
        }
    }

    pub open spec fn inv(self) -> bool {
        &&& self.rom_banks > 0
        &&& self.rom.len() == self.rom_banks * 0x4000
        &&& self.ram.len() == self.ram_banks * 0x2000
    }

    /// The ROM bank mapped in the high half: the 9-bit bank number (bit 8
    /// from the high register), wrapped at the ROM size.  Bank 0 can be
    /// mapped there.
    pub open spec fn high_bank(self) -> int {
        (self.rom_bank_high * 256 + self.rom_bank_low) % (self.rom_banks as int)
    }

    pub open spec fn rom_byte(self, address: u16) -> u8 {
        if address < 0x4000 {
            self.rom[address as int]
        } else {
            self.rom[self.high_bank() * 0x4000 + address % 0x4000]
        }
    }

    /// 0x0000..=0x1FFF enables RAM (low nibble 0xA), 0x2000..=0x2FFF sets the
    /// low 8 bits of the ROM bank, 0x3000..=0x3FFF its bit 8 and
    /// 0x4000..=0x5FFF the 4-bit RAM bank.
    pub open spec fn write_rom(self, address: u16, value: u8) -> Self {
        if address <= 0x1FFF {
            Mbc5State { ram_enable: value & 0x0F == 0x0A, ..self }
        } else if address <= 0x2FFF {
            Mbc5State { rom_bank_low: value, ..self }
        } else if address <= 0x3FFF {
            Mbc5State { rom_bank_high: value & 0x01, ..self }
        } else if address <= 0x5FFF {
            Mbc5State { ram_bank: value & 0x0F, ..self }
        } else {
            self
        }
    }

    pub open spec fn ram_accessible(self) -> bool {
        self.ram_enable && self.ram_banks > 0
    }

    pub open spec fn ram_index(self, address: u16) -> int {
        ((self.ram_bank as int) % (self.ram_banks as int)) * 0x2000 + (address - 0xA000)
    }

    pub open spec fn ram_byte(self, address: u16) -> u8 {
        if !self.ram_accessible() {
            0xFF
        } else {
            self.ram[self.ram_index(address)]
        }
    }

    pub open spec fn write_ram(self, address: u16, value: u8) -> Self {
        if !self.ram_accessible() {
            self
        } else {
            Mbc5State { ram: self.ram.update(self.ram_index(address), value), ..self }
        }
    }

    pub open spec fn save(self) -> Seq<u8> {
        self.ram
    }

    pub open spec fn load(self, save: Seq<u8>) -> Self {
        Mbc5State { ram: resized(save, self.ram_banks * 0x2000, 0), ..self }
    }
}

impl View for MBC5 {
    type V = Mbc5State;

    closed spec fn view(&self) -> Mbc5State {
        Mbc5State {
            rom: self.rom_data@,
            ram: self.ram_data@,
            rom_banks: self.rom_banks as nat,
            ram_banks: self.ram_banks as nat,
            rom_bank_low: self.rom_bank_low,
            rom_bank_high: self.rom_bank_high,
            ram_bank: self.ram_bank,
            ram_enable: self.ram_enable,
            has_battery: self.has_battery,
        }
    }
}

impl MBC5 {
    /// Builds the controller from the first `rom_banks` banks of the image.
    pub fn new(romdata: Vec<u8>, rom_banks: usize, ram_banks: usize, has_battery: bool) -> (cart: Self)
        requires
            rom_banks * ROM_BANK_SIZE <= romdata@.len(),
            ram_banks * RAM_BANK_SIZE <= usize::MAX,
        ensures
            cart@ == Mbc5State::initial(romdata@, rom_banks as nat, ram_banks as nat, has_battery),
            rom_banks > 0 ==> cart.inv(),
    {
        let _total = romdata.len();
        let mut rom = romdata;
        rom.truncate(rom_banks * ROM_BANK_SIZE);
        let ram = zeroed(ram_banks * RAM_BANK_SIZE);
        MBC5 {
            rom_data: rom,
            ram_data: ram,
            rom_banks,
            ram_banks,
            rom_bank_low: 0,
            rom_bank_high: 0,
            ram_bank: 0,
            ram_enable: false,
            has_battery,
        }
    }
}

impl Mbc for MBC5 {
    open spec fn inv(&self) -> bool {
        self@.inv()
    }

    fn read_rom(&self, address: u16) -> (value: u8)
        ensures
            value == self@.rom_byte(address),
    {
        let _len = self.rom_data.len();
        if address < 0x4000 {
            return self.rom_data[address as usize];
        }
        let offset = (address as usize) & 0x3FFF;
        let high = self.rom_bank_high as usize;
        let low = self.rom_bank_low as usize;
        proof {
            lemma_bank_offset(address);
            assert((high << 8) | low == high * 256 + low) by (bit_vector)
                requires
                    high < 256,
                    low < 256,
            ;
        }
        let current_bank = ((high << 8) | low) % self.rom_banks;
        proof {
            lemma_bank_index(current_bank as int, self.rom_banks as int, 0x4000, offset as int);
        }
        self.rom_data[current_bank * ROM_BANK_SIZE + offset]
    }

    fn write_rom(&mut self, address: u16, value: u8)
        ensures
            final(self)@ == old(self)@.write_rom(address, value),
    {
        if address <= 0x1FFF {
            self.ram_enable = (value & 0xF) == 0xA;
        } else if address <= 0x2FFF {
            self.rom_bank_low = value;
        } else if address <= 0x3FFF {
            self.rom_bank_high = value & 0x01;
        } else if address <= 0x5FFF {
            self.ram_bank = value & 0x0F;
        }
    }

    fn read_ram(&mut self, address: u16) -> (value: u8)
        ensures
            value == old(self)@.ram_byte(address),
            final(self)@ == old(self)@,
    {
        let offset = (address - 0xA000) as usize;
        if !self.ram_enable {
            return 0xFF;
        }
        if self.ram_banks == 0 {
            return 0xFF;
        }
        let current_bank = (self.ram_bank as usize) % self.ram_banks;
        let _len = self.ram_data.len();
        proof {
            lemma_bank_index(current_bank as int, self.ram_banks as int, 0x2000, offset as int);
        }
        self.ram_data[current_bank * RAM_BANK_SIZE + offset]
    }

    fn write_ram(&mut self, address: u16, value: u8)
        ensures
            final(self)@ == old(self)@.write_ram(address, value),
    {
        if !self.ram_enable || self.ram_banks == 0 {
            return;
        }
        let offset = (address - 0xA000) as usize;
        let current_bank = (self.ram_bank as usize) % self.ram_banks;
        let _len = self.ram_data.len();
        proof {
            lemma_bank_index(current_bank as int, self.ram_banks as int, 0x2000, offset as int);
        }
        self.ram_data.set(current_bank * RAM_BANK_SIZE + offset, value);
    }

    fn step(&mut self, _m_cycles: u16)
        ensures
            final(self)@ == old(self)@,
    {
    }

    fn save_ram(&self) -> (save: Vec<u8>)
        ensures
            save@ == self@.save(),
    {
        self.ram_data.clone()
    }

    fn load_ram(&mut self, save: &[u8])
        ensures
            final(self)@ == old(self)@.load(save@),
    {
        let data = vstd::slice::slice_to_vec(save);
        let len = self.ram_data.len();
        self.ram_data = fit_to_len(data, len, 0);
    }
}

} // verus!
