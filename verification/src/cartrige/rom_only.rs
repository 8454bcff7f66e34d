//! Cartridges without a bank controller: 32 KiB of ROM and 8 KiB of RAM.

use super::{fit_to_len, pad_rom, resized, zeroed, zeros, Mbc, RAM_BANK_SIZE};
use vstd::prelude::*;

verus! {

/// A cartridge with no bank controller.
pub struct RomOnly {
    rom_data: Vec<u8>,
    ram_data: Vec<u8>,
    pub has_battery: bool,
}

/// The abstract state of a [`RomOnly`] cartridge.
pub struct RomOnlyState {
    pub rom: Seq<u8>,
    pub ram: Seq<u8>,
    pub has_battery: bool,
}

impl RomOnlyState {
    /// The state right after power-on: the image padded with 0xFF to two
    /// banks, and RAM cleared.
    pub open spec fn initial(romdata: Seq<u8>, has_battery: bool) -> Self {
        RomOnlyState {
            rom: resized(romdata, 0x8000, 0xFF),
            ram: zeros(0x2000),
            has_battery,
        }
    }

    pub open spec fn inv(self) -> bool {
        self.rom.len() == 0x8000 && self.ram.len() == 0x2000
    }

    pub open spec fn rom_byte(self, address: u16) -> u8 {
        self.rom[address as int]
    }

    /// RAM is always enabled; addresses beyond it read 0xFF.
    pub open spec fn ram_byte(self, address: u16) -> u8 {
        let index = address - 0xA000;
        if index < self.ram.len() {
            self.ram[index]
        } else {
            0xFF
        }
    }

    pub open spec fn write_ram(self, address: u16, value: u8) -> Self {
        let index = address - 0xA000;
        if index < self.ram.len() {
            RomOnlyState { ram: self.ram.update(index, value), ..self }
        } else {
            self
        }
    }

    pub open spec fn save(self) -> Seq<u8> {
        self.ram
    }

    pub open spec fn load(self, save: Seq<u8>) -> Self {
        RomOnlyState { ram: resized(save, 0x2000, 0), ..self }
    }
}

impl View for RomOnly {
    type V = RomOnlyState;

    closed spec fn view(&self) -> RomOnlyState {
        RomOnlyState { rom: self.rom_data@, ram: self.ram_data@, has_battery: self.has_battery }
    }
}

impl RomOnly {
    /// Builds the cartridge from its image; the RAM bank count of the header
    /// does not matter, there is always one bank.
    pub fn new(romdata: Vec<u8>, _ram_banks: usize, has_battery: bool) -> (cart: Self)
        ensures
            cart@ == RomOnlyState::initial(romdata@, has_battery),
            cart.inv(),
    {
        let rom = pad_rom(romdata, 2);
        let ram = zeroed(RAM_BANK_SIZE);
        RomOnly { rom_data: rom, ram_data: ram, has_battery }
    }
}

impl Mbc for RomOnly {
    open spec fn inv(&self) -> bool {
        self@.inv()
    }

    fn read_rom(&self, address: u16) -> (value: u8)
        ensures
            value == self@.rom_byte(address),
    {
        self.rom_data[address as usize]
    }

    fn write_rom(&mut self, _address: u16, _value: u8)
        ensures
            final(self)@ == old(self)@,
    {
    }

    fn read_ram(&mut self, address: u16) -> (value: u8)
        ensures
            value == old(self)@.ram_byte(address),
            final(self)@ == old(self)@,
    {
        let index = (address as usize) - 0xA000;
        if index >= self.ram_data.len() {
            return 0xFF;
        }
        self.ram_data[index]
    }

    fn write_ram(&mut self, address: u16, value: u8)
        ensures
            final(self)@ == old(self)@.write_ram(address, value),
    {
        let index = (address as usize) - 0xA000;
        if index < self.ram_data.len() {
            self.ram_data.set(index, value);
        }
    }

    fn step(&mut self, _m_cycles: u16)
        ensures
            final(self)@ == old(self)@,
    {
    }

    fn save_ram(&self) -> (save: Vec<u8>)
        ensures
            save@ == self@.save(),
    {
        self.ram_data.clone()
    }

    fn load_ram(&mut self, save: &[u8])
        ensures
            final(self)@ == old(self)@.load(save@),
    {
        let data = vstd::slice::slice_to_vec(save);
        self.ram_data = fit_to_len(data, RAM_BANK_SIZE, 0);
    }
}

} // verus!
