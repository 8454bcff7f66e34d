//! The MBC2 controller: up to 256 KiB of ROM and 512 half-bytes of RAM
//! inside the controller.

use super::{fit_to_len, lemma_bank_index, lemma_bank_offset, resized, Mbc, ROM_BANK_SIZE};
use crate::cpu::lemma_low_nibble;
use vstd::prelude::*;

verus! {

/// An MBC2 cartridge.  ROM is kept as a flat byte vector, bank `b` starting
/// at `b * ROM_BANK_SIZE`.
pub struct MBC2 {
    rom_data: Vec<u8>,
    ram_data: [u8; 512],
    rom_banks: usize,
    rom_bank: u8,
    ram_enable: bool,
    has_battery: bool,
}

/// The abstract state of an [`MBC2`] cartridge.
pub struct Mbc2State {
    pub rom: Seq<u8>,
    pub ram: Seq<u8>,
    pub rom_banks: nat,
    pub rom_bank: u8,
    pub ram_enable: bool,
    pub has_battery: bool,
}

impl Mbc2State {
    /// The state right after power-on: bank register 0, RAM disabled and
    /// cleared.
    pub open spec fn initial(romdata: Seq<u8>, rom_banks: nat, has_battery: bool) -> Self {
        Mbc2State {
            rom: romdata.subrange(0, (rom_banks * 0x4000) as int),
            ram: Seq::new(512, |i: int| 0u8),
            rom_banks,
            rom_bank: 0,
            ram_enable: false,
            has_battery,
        }
    }

    /// Besides the sizes: every RAM cell holds 4 bits.
    pub open spec fn inv(self) -> bool {
        &&& self.rom_banks > 0
        &&& self.rom.len() == self.rom_banks * 0x4000
        &&& self.ram.len() == 512
        &&& forall|i: int| 0 <= i < 512 ==> #[trigger] self.ram[i] < 16
    }

    /// The ROM bank mapped in the high half: the 4-bit register, 0 meaning 1,
    /// wrapped at the ROM size.
    pub open spec fn high_bank(self) -> int {
        let bank: int = if self.rom_bank == 0 {
            1
        } else {
            self.rom_bank as int
        };
        bank % (self.rom_banks as int)
    }

    pub open spec fn rom_byte(self, address: u16) -> u8 {
        if address < 0x4000 {
            self.rom[address as int]
        } else {
            self.rom[self.high_bank() * 0x4000 + address % 0x4000]
        }
    }

    /// A write with address bit 8 set is ignored; otherwise 0x0000..=0x1FFF
    /// enables RAM (low nibble 0xA) and 0x2000..=0x3FFF sets the bank.
    pub open spec fn write_rom(self, address: u16, value: u8) -> Self {
        if address & 0x0100 == 0x0100 {
            self
        } else if address <= 0x1FFF {
            Mbc2State { ram_enable: value & 0x0F == 0x0A, ..self }
        } else if address <= 0x3FFF {
            Mbc2State { rom_bank: value & 0x0F, ..self }
        } else {
            self
        }
    }

    /// The 512 cells repeat over the whole RAM window.
    pub open spec fn ram_index(address: u16) -> int {
        (address - 0xA000) % 512
    }

    /// A cell holds 4 bits; the upper 4 bits of a read are all ones.
    pub open spec fn ram_byte(self, address: u16) -> u8 {
        if !self.ram_enable {
            0xFF
        } else {
            0xF0 | self.ram[Self::ram_index(address)]
        }
    }

    pub open spec fn write_ram(self, address: u16, value: u8) -> Self {
        if !self.ram_enable {
            self
        } else {
            Mbc2State { ram: self.ram.update(Self::ram_index(address), value & 0x0F), ..self }
        }
    }

    pub open spec fn save(self) -> Seq<u8> {
        self.ram
    }

    /// Only the low 4 bits of each of the first 512 bytes are kept.
    pub open spec fn load(self, save: Seq<u8>) -> Self {
        Mbc2State { ram: Seq::new(512, |i: int| resized(save, 512, 0)[i] & 0x0F), ..self }
    }
}

/// The 512 cells repeat every 512 addresses over the RAM window: two
/// addresses 512 apart read the same, and a write to one shows at the other.
pub proof fn law_mbc2_ram_mirrors(s: Mbc2State, address: u16, value: u8)
    requires
        s.inv(),
        0xA000 <= address,
        address + 512 <= 0xBFFF,
    ensures
        s.ram_byte(address) == s.ram_byte((address + 512) as u16),
        s.write_ram(address, value).ram_byte((address + 512) as u16) == s.write_ram(address, value).ram_byte(address),
{
}

/// A write to the ROM window at an address with bit 8 set changes nothing.
pub proof fn law_mbc2_bit8_ignored(s: Mbc2State, address: u16, value: u8)
    requires
        address & 0x0100 == 0x0100,
    ensures
        s.write_rom(address, value) == s,
{
}

/// The cell a RAM address falls on: the address masked to 9 bits.
proof fn lemma_mirror_index(diff: usize)
    ensures
        diff & 0x1FF == diff % 512,
{
    let index = diff & 0x1FF;
    assert(index == diff % 512) by (bit_vector)
        requires
            index == diff & 0x1FF,
    ;
}

impl View for MBC2 {
    type V = Mbc2State;

    closed spec fn view(&self) -> Mbc2State {
        Mbc2State {
            rom: self.rom_data@,
            ram: self.ram_data@,
            rom_banks: self.rom_banks as nat,
            rom_bank: self.rom_bank,
            ram_enable: self.ram_enable,
            has_battery: self.has_battery,
        }
    }
}

impl MBC2 {
    /// Builds the controller from the first `rom_banks` banks of the image.
    pub fn new(romdata: Vec<u8>, rom_banks: usize, has_battery: bool) -> (cart: Self)
        requires
            rom_banks * ROM_BANK_SIZE <= romdata@.len(),
        ensures
            cart@ == Mbc2State::initial(romdata@, rom_banks as nat, has_battery),
            rom_banks > 0 ==> cart.inv(),
    {
        let _total = romdata.len();
        let mut rom = romdata;
        rom.truncate(rom_banks * ROM_BANK_SIZE);
        let ram = [0u8; 512];
        assert(ram@ =~= Seq::new(512, |i: int| 0u8));
        MBC2 { rom_data: rom, ram_data: ram, rom_banks, rom_bank: 0, ram_enable: false, has_battery }
    }
}

impl Mbc for MBC2 {
    open spec fn inv(&self) -> bool {
        self@.inv()
    }

    fn read_rom(&self, address: u16) -> (value: u8)
        ensures
            value == self@.rom_byte(address),
    {
        let _len = self.rom_data.len();
        if address < 0x4000 {
            return self.rom_data[address as usize];
        }
        let offset = (address as usize) & 0x3FFF;
        proof {
            lemma_bank_offset(address);
        }
        let bank = if self.rom_bank == 0 {
            1
        } else {
            self.rom_bank as usize
        };
        let bank = bank % self.rom_banks;
        proof {
            lemma_bank_index(bank as int, self.rom_banks as int, 0x4000, offset as int);
        }
        self.rom_data[bank * ROM_BANK_SIZE + offset]
    }

    fn write_rom(&mut self, address: u16, value: u8)
        ensures
            final(self)@ == old(self)@.write_rom(address, value),
    {
        if address & 0x0100 == 0x0100 {
            return;
        }
        if address <= 0x1FFF {
            self.ram_enable = (value & 0x0F) == 0x0A;
        } else if address <= 0x3FFF {
            self.rom_bank = value & 0x0F;
        }
    }

    fn read_ram(&mut self, address: u16) -> (value: u8)
        ensures
            value == old(self)@.ram_byte(address),
            final(self)@ == old(self)@,
    {
        if !self.ram_enable {
            return 0xFF;
        }
        let diff = address as usize - 0xA000;
        let index = diff & 0x1FF;
        proof {
            lemma_mirror_index(diff);
        }
        0xF0 | self.ram_data[index]
    }

    fn write_ram(&mut self, address: u16, value: u8)
        ensures
            final(self)@ == old(self)@.write_ram(address, value),
    {
        if !self.ram_enable {
            return;
        }
        let diff = address as usize - 0xA000;
        let index = diff & 0x1FF;
        proof {
            lemma_mirror_index(diff);
        }
        proof {
            lemma_low_nibble(value);
        }
        self.ram_data[index] = value & 0x0F;
    }

    fn step(&mut self, _m_cycles: u16)
        ensures
            final(self)@ == old(self)@,
    {
    }

    fn save_ram(&self) -> (save: Vec<u8>)
        ensures
            save@ == self@.save(),
    {
        let mut out: Vec<u8> = Vec::new();
        let mut i: usize = 0;
        while i < 512
            invariant
                i <= 512,
                out@ == self.ram_data@.subrange(0, i as int),
            decreases 512 - i,
        {
            out.push(self.ram_data[i]);
            i += 1;
            assert(out@ =~= self.ram_data@.subrange(0, i as int));
        }
        assert(out@ =~= self.ram_data@);
        out
    }

    fn load_ram(&mut self, save: &[u8])
        ensures
            final(self)@ == old(self)@.load(save@),
    {
        let data = fit_to_len(vstd::slice::slice_to_vec(save), 512, 0);
        let ghost target = Seq::new(512, |k: int| resized(save@, 512, 0)[k] & 0x0F);
        let mut i: usize = 0;
        while i < 512
            invariant
                i <= 512,
                data@ == resized(save@, 512, 0),
                target == Seq::new(512, |k: int| resized(save@, 512, 0)[k] & 0x0F),
                forall|k: int| 0 <= k < i ==> self.ram_data@[k] == target[k],
                self.rom_data == old(self).rom_data,
                self.rom_banks == old(self).rom_banks,
                self.rom_bank == old(self).rom_bank,
                self.ram_enable == old(self).ram_enable,
                self.has_battery == old(self).has_battery,
            decreases 512 - i,
        {
            self.ram_data[i] = data[i] & 0x0F;
            i += 1;
        }
        assert(self.ram_data@ =~= target);
        assert forall|k: int| 0 <= k < 512 implies #[trigger] target[k] < 16 by {
            lemma_low_nibble(data@[k]);
        }
    }
}

} // verus!
