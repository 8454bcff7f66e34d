//! Cartridges: header decoding and the memory bank controllers (MBCs).

pub mod header;
pub mod rom_only;
pub mod mbc1;
pub mod mbc2;
pub mod mbc3;
pub mod mbc5;

pub use header::{
    battery_for_code, fetch_has_battery, fetch_mbc_type, fetch_ram_banks, fetch_rom_banks,
    mbc_type_for_code, mbc_type_of_code, ram_banks_for_code, ram_banks_of_code, rom_banks_for_code,
    rom_banks_of_code,
};
pub use rom_only::{RomOnly, RomOnlyState};
pub use mbc1::{Mbc1State, MBC1};
pub use mbc2::{Mbc2State, MBC2};
pub use mbc3::{bcd_to_u8, inc_bcd, Mbc3State, MBC3};
pub use mbc5::{Mbc5State, MBC5};

use vstd::prelude::*;

verus! {

/// The memory bank controller named by the cartridge header.
#[allow(non_camel_case_types)]
#[derive(PartialEq, Eq, Structural, Clone, Copy, Debug)]
pub enum MBC_Type {
    RomOnly,
    MBC1,
    MBC2,
    MBC3,
    MBC5,
    MBC6,
    MBC7,
    MMM01,
    HuC1,
    HuC3,
}

/// Size of one switchable ROM bank.
pub const ROM_BANK_SIZE: usize = 0x4000;

/// Size of one switchable external RAM bank.
pub const RAM_BANK_SIZE: usize = 0x2000;

/// Clock cycles (T-cycles) in one second of the real time clock.
pub const T_CYCLES_PER_RTC_SECOND: u32 = 4_194_304;

/// The common interface of the memory bank controllers: the CPU sees ROM at
/// 0x0000..=0x7FFF and external RAM at 0xA000..=0xBFFF, and writes to the ROM
/// window program the controller's bank registers.
pub trait Mbc {
    /// Well-formedness of the controller's storage and registers.
    spec fn inv(&self) -> bool;

    /// Reads a byte of the ROM window.
    fn read_rom(&self, address: u16) -> (value: u8)
        requires
            self.inv(),
            address <= 0x7FFF,
    ;

    /// A write to the ROM window: programs the controller's registers.
    fn write_rom(&mut self, address: u16, value: u8)
        requires
            old(self).inv(),
        ensures
            final(self).inv(),
    ;

    /// Reads a byte of the external RAM window.  Reading may change the state
    /// of a controller (the clock of the MBC3), hence `&mut self`.
    fn read_ram(&mut self, address: u16) -> (value: u8)
        requires
            old(self).inv(),
            0xA000 <= address <= 0xBFFF,
        ensures
            final(self).inv(),
    ;

    /// Writes a byte of the external RAM window.
    fn write_ram(&mut self, address: u16, value: u8)
        requires
            old(self).inv(),
            0xA000 <= address <= 0xBFFF,
        ensures
            final(self).inv(),
    ;

    /// Advances the controller by `m_cycles` machine cycles.
    fn step(&mut self, m_cycles: u16)
        requires
            old(self).inv(),
        ensures
            final(self).inv(),
    ;

    /// The contents of the external RAM, to be kept across power cycles.
    fn save_ram(&self) -> (save: Vec<u8>)
        requires
            self.inv(),
    ;

    /// Restores the external RAM from a save.
    fn load_ram(&mut self, save: &[u8])
        requires
            old(self).inv(),
        ensures
            final(self).inv(),
    ;
}

/// `s` cut, or padded with `fill`, to exactly `len` bytes.
pub open spec fn resized(s: Seq<u8>, len: nat, fill: u8) -> Seq<u8> {
    if len <= s.len() {
        s.subrange(0, len as int)
    } else {
        s + Seq::new((len - s.len()) as nat, |i: int| fill)
    }
}

/// Cuts or pads `data` with `fill` to exactly `len` bytes.
pub fn fit_to_len(data: Vec<u8>, len: usize, fill: u8) -> (out: Vec<u8>)
    ensures
        out@ == resized(data@, len as nat, fill),
{
    let mut data = data;
    let ghost before = data@;
    data.resize(len, fill);
    proof {
        if len > before.len() {
            assert forall|i: int| before.len() <= i < len implies data@[i] == fill by {
                assert(cloned::<u8>(fill, data@[i]));
            }
            assert(data@ =~= resized(before, len as nat, fill)) by {
                assert(data@.subrange(0, before.len() as int) == before);
                assert forall|i: int| 0 <= i < before.len() implies data@[i] == before[i] by {
                    assert(data@.subrange(0, before.len() as int)[i] == data@[i]);
                }
            }
        }
    }
    data
}

/// A byte inside bank `bank` of `banks` banks of `size` bytes lies inside the
/// storage.
pub(crate) proof fn lemma_bank_index(bank: int, banks: int, size: int, offset: int)
    by (nonlinear_arith)
    requires
        0 <= bank < banks,
        0 <= offset < size,
    ensures
        0 <= bank * size + offset < banks * size,
{
}

/// The offset of an address inside its 16 KiB ROM bank.
pub(crate) proof fn lemma_bank_offset(address: u16)
    ensures
        (address as usize) & 0x3FFF == address % 0x4000,
{
    let offset = (address as usize) & 0x3FFF;
    assert(offset == address % 0x4000) by (bit_vector)
        requires
            offset == (address as usize) & 0x3FFF,
    ;
}

/// `len` zero bytes.
pub open spec fn zeros(len: nat) -> Seq<u8> {
    Seq::new(len, |i: int| 0u8)
}

/// Allocates `len` zero bytes of cartridge RAM.
pub(crate) fn zeroed(len: usize) -> (v: Vec<u8>)
    ensures
        v@ == zeros(len as nat),
{
    let v = vec![0u8; len];
    proof {
        assert forall|i: int| 0 <= i < len implies v@[i] == 0u8 by {
            assert(cloned::<u8>(0u8, v@[i]));
        }
        assert(v@ =~= zeros(len as nat));
    }
    v
}

/// Pads (or cuts) a ROM image with 0xFF to exactly `rom_banks` banks.
pub fn pad_rom(romdata: Vec<u8>, rom_banks: usize) -> (out: Vec<u8>)
    requires
        rom_banks * ROM_BANK_SIZE <= usize::MAX,
    ensures
        out@ == resized(romdata@, (rom_banks * ROM_BANK_SIZE) as nat, 0xFF),
{
    fit_to_len(romdata, rom_banks * ROM_BANK_SIZE, 0xFF)
}

/// A cartridge with one of the implemented controllers.
pub enum Cartridge {
    RomOnly(RomOnly),
    Mbc1(MBC1),
    Mbc2(MBC2),
    Mbc3(MBC3),
    Mbc5(MBC5),
}

/// The abstract state of a [`Cartridge`].
pub enum CartState {
    RomOnly(RomOnlyState),
    Mbc1(Mbc1State),
    Mbc2(Mbc2State),
    Mbc3(Mbc3State),
    Mbc5(Mbc5State),
}

/// Whether the emulator can load the image: the header is present, names an
/// implemented controller and known ROM and RAM sizes, and a controller
/// other than "ROM only" finds all the ROM banks the header announces.
pub open spec fn rom_is_loadable(rom: Seq<u8>) -> bool {
    &&& rom.len() > 0x149
    &&& mbc_type_for_code(rom[0x147]) is Some
    &&& rom_banks_for_code(rom[0x148]) is Some
    &&& ram_banks_for_code(rom[0x149]) is Some
    &&& (mbc_type_for_code(rom[0x147]) != Some(MBC_Type::RomOnly) ==> rom_banks_for_code(
        rom[0x148],
    ).unwrap() * 0x4000 <= rom.len())
}

impl CartState {
    /// The state of a freshly inserted cartridge, built from the header.
    pub open spec fn initial(rom: Seq<u8>) -> CartState {
        let rom_banks = rom_banks_for_code(rom[0x148]).unwrap() as nat;
        let ram_banks = ram_banks_for_code(rom[0x149]).unwrap() as nat;
        let battery = battery_for_code(rom[0x147]);
        match mbc_type_for_code(rom[0x147]).unwrap() {
            MBC_Type::RomOnly => CartState::RomOnly(RomOnlyState::initial(rom, battery)),
            MBC_Type::MBC1 => CartState::Mbc1(Mbc1State::initial(rom, rom_banks, ram_banks, battery)),
            MBC_Type::MBC2 => CartState::Mbc2(Mbc2State::initial(rom, rom_banks, battery)),
            MBC_Type::MBC3 => CartState::Mbc3(Mbc3State::initial(rom, rom_banks, ram_banks, battery)),
            _ => CartState::Mbc5(Mbc5State::initial(rom, rom_banks, ram_banks, battery)),
        }
    }

    pub open spec fn inv(self) -> bool {
        match self {
            CartState::RomOnly(s) => s.inv(),
            CartState::Mbc1(s) => s.inv(),
            CartState::Mbc2(s) => s.inv(),
            CartState::Mbc3(s) => s.inv(),
            CartState::Mbc5(s) => s.inv(),
        }
    }

    pub open spec fn rom_byte(self, address: u16) -> u8 {
        match self {
            CartState::RomOnly(s) => s.rom_byte(address),
            CartState::Mbc1(s) => s.rom_byte(address),
            CartState::Mbc2(s) => s.rom_byte(address),
            CartState::Mbc3(s) => s.rom_byte(address),
            CartState::Mbc5(s) => s.rom_byte(address),
        }
    }

    pub open spec fn write_rom(self, address: u16, value: u8) -> CartState {
        match self {
            CartState::RomOnly(s) => CartState::RomOnly(s),
            CartState::Mbc1(s) => CartState::Mbc1(s.write_rom(address, value)),
            CartState::Mbc2(s) => CartState::Mbc2(s.write_rom(address, value)),
            CartState::Mbc3(s) => CartState::Mbc3(s.write_rom(address, value)),
            CartState::Mbc5(s) => CartState::Mbc5(s.write_rom(address, value)),
        }
    }

    pub open spec fn ram_byte(self, address: u16) -> u8 {
        match self {
            CartState::RomOnly(s) => s.ram_byte(address),
            CartState::Mbc1(s) => s.ram_byte(address),
            CartState::Mbc2(s) => s.ram_byte(address),
            CartState::Mbc3(s) => s.ram_byte(address),
            CartState::Mbc5(s) => s.ram_byte(address),
        }
    }

    /// The state after a read of the RAM window (only the MBC3 changes).
    pub open spec fn after_ram_read(self, address: u16) -> CartState {
        match self {
            CartState::Mbc3(s) => CartState::Mbc3(s.after_ram_read(address)),
            _ => self,
        }
    }

    pub open spec fn write_ram(self, address: u16, value: u8) -> CartState {
        match self {
            CartState::RomOnly(s) => CartState::RomOnly(s.write_ram(address, value)),
            CartState::Mbc1(s) => CartState::Mbc1(s.write_ram(address, value)),
            CartState::Mbc2(s) => CartState::Mbc2(s.write_ram(address, value)),
            CartState::Mbc3(s) => CartState::Mbc3(s.write_ram(address, value)),
            CartState::Mbc5(s) => CartState::Mbc5(s.write_ram(address, value)),
        }
    }

    /// Only the MBC3 (its clock) depends on time.
    pub open spec fn step(self, m_cycles: u16) -> CartState {
        match self {
            CartState::Mbc3(s) => CartState::Mbc3(s.step(m_cycles)),
            _ => self,
        }
    }

    pub open spec fn save(self) -> Seq<u8> {
        match self {
            CartState::RomOnly(s) => s.save(),
            CartState::Mbc1(s) => s.save(),
            CartState::Mbc2(s) => s.save(),
            CartState::Mbc3(s) => s.save(),
            CartState::Mbc5(s) => s.save(),
        }
    }

    pub open spec fn load(self, save: Seq<u8>) -> CartState {
        match self {
            CartState::RomOnly(s) => CartState::RomOnly(s.load(save)),
            CartState::Mbc1(s) => CartState::Mbc1(s.load(save)),
            CartState::Mbc2(s) => CartState::Mbc2(s.load(save)),
            CartState::Mbc3(s) => CartState::Mbc3(s.load(save)),
            CartState::Mbc5(s) => CartState::Mbc5(s.load(save)),
        }
    }
}

impl CartState {
    /// The ROM image the controller maps.
    pub open spec fn rom_image(self) -> Seq<u8> {
        match self {
            CartState::RomOnly(s) => s.rom,
            CartState::Mbc1(s) => s.rom,
            CartState::Mbc2(s) => s.rom,
            CartState::Mbc3(s) => s.rom,
            CartState::Mbc5(s) => s.rom,
        }
    }

    /// Whether the RAM window is switched on (always, without a controller).
    pub open spec fn ram_enabled(self) -> bool {
        match self {
            CartState::RomOnly(_) => true,
            CartState::Mbc1(s) => s.ram_enable,
            CartState::Mbc2(s) => s.ram_enable,
            CartState::Mbc3(s) => s.ram_enable,
            CartState::Mbc5(s) => s.ram_enable,
        }
    }

    /// Whether the RAM window is backed by storage that keeps a written byte:
    /// enabled external RAM that exists (the MBC2's own cells included), or an
    /// MBC3 clock register.
    pub open spec fn ram_backed(self) -> bool {
        match self {
            CartState::RomOnly(_) => true,
            CartState::Mbc1(s) => s.ram_accessible(),
            CartState::Mbc2(s) => s.ram_enable,
            CartState::Mbc3(s) => s.ram_enable && ((s.ram_bank <= 0x07 && s.ram_banks > 0) || (0x08
                <= s.ram_bank <= 0x0C)),
            CartState::Mbc5(s) => s.ram_accessible(),
        }
    }
}

/// The ROM of a cartridge is read-only: register writes, RAM accesses,
/// elapsed time and restored saves all leave the ROM image as it was.
pub proof fn law_rom_is_read_only(s: CartState, address: u16, value: u8, m_cycles: u16, save: Seq<u8>)
    ensures
        s.write_rom(address, value).rom_image() == s.rom_image(),
        s.write_ram(address, value).rom_image() == s.rom_image(),
        s.after_ram_read(address).rom_image() == s.rom_image(),
        s.step(m_cycles).rom_image() == s.rom_image(),
        s.load(save).rom_image() == s.rom_image(),
{
}

/// Writes to the ROM window only program the controller: the RAM contents
/// (what a save holds) stay as they were.
pub proof fn law_register_writes_keep_ram(s: CartState, address: u16, value: u8)
    ensures
        s.write_rom(address, value).save() == s.save(),
{
}

/// Where the RAM window is backed by storage, a read returns the byte just
/// written at that address; the MBC2 keeps the low 4 bits and reads the high
/// 4 bits as ones.
pub proof fn law_ram_write_then_read(s: CartState, address: u16, value: u8)
    requires
        s.inv(),
        0xA000 <= address <= 0xBFFF,
        s.ram_backed(),
    ensures
        s.write_ram(address, value).ram_byte(address) == (if s is Mbc2 {
            0xF0 | (value & 0x0F)
        } else {
            value
        }),
{
    match s {
        CartState::Mbc1(c) => {
            lemma_bank_index(c.ram_bank(), c.ram_banks as int, 0x2000, address - 0xA000);
        },
        CartState::Mbc3(c) => {
            if c.ram_bank <= 0x07 {
                lemma_bank_index(
                    (c.ram_bank as int) % (c.ram_banks as int),
                    c.ram_banks as int,
                    0x2000,
                    address - 0xA000,
                );
            }
        },
        CartState::Mbc5(c) => {
            lemma_bank_index(
                (c.ram_bank as int) % (c.ram_banks as int),
                c.ram_banks as int,
                0x2000,
                address - 0xA000,
            );
        },
        _ => {},
    }
}

/// While RAM is switched off, the RAM window reads 0xFF and ignores writes.
pub proof fn law_disabled_ram(s: CartState, address: u16, value: u8)
    requires
        !s.ram_enabled(),
    ensures
        s.ram_byte(address) == 0xFF,
        s.write_ram(address, value) == s,
{
}

/// A freshly inserted cartridge with a controller starts with RAM switched
/// off.
pub proof fn law_ram_off_at_power_on(rom: Seq<u8>)
    requires
        rom_is_loadable(rom),
        mbc_type_for_code(rom[0x147]) != Some(MBC_Type::RomOnly),
    ensures
        !CartState::initial(rom).ram_enabled(),
{
}

/// Writing to 0x0000..=0x1FFF switches the RAM on when the low nibble of the
/// value is 0xA and off otherwise (on the MBC2 only at addresses with bit 8
/// clear).
pub proof fn law_ram_enable_register(s: CartState, address: u16, value: u8)
    requires
        !(s is RomOnly),
        address <= 0x1FFF,
        s is Mbc2 ==> address & 0x0100 == 0,
    ensures
        s.write_rom(address, value).ram_enabled() == (value & 0x0F == 0x0A),
{
}

/// Restoring the save of a cartridge gives back the same cartridge.
pub proof fn law_save_then_load(s: CartState)
    requires
        s.inv(),
    ensures
        s.load(s.save()) == s,
{
    match s {
        CartState::RomOnly(c) => {
            assert(resized(c.ram, 0x2000, 0) =~= c.ram);
        },
        CartState::Mbc1(c) => {
            assert(resized(c.ram, c.ram_banks * 0x2000, 0) =~= c.ram);
        },
        CartState::Mbc2(c) => {
            assert(resized(c.ram, 512, 0) =~= c.ram);
            assert forall|i: int| 0 <= i < 512 implies #[trigger] (c.ram[i] & 0x0F) == c.ram[i] by {
                crate::cpu::lemma_low_nibble(c.ram[i]);
            }
            assert(Seq::new(512, |i: int| resized(c.ram, 512, 0)[i] & 0x0F) =~= c.ram);
        },
        CartState::Mbc3(c) => {
            assert(resized(c.ram, c.ram_banks * 0x2000, 0) =~= c.ram);
        },
        CartState::Mbc5(c) => {
            assert(resized(c.ram, c.ram_banks * 0x2000, 0) =~= c.ram);
        },
    }
}

impl View for Cartridge {
    type V = CartState;

    open spec fn view(&self) -> CartState {
        match self {
            Cartridge::RomOnly(c) => CartState::RomOnly(c@),
            Cartridge::Mbc1(c) => CartState::Mbc1(c@),
            Cartridge::Mbc2(c) => CartState::Mbc2(c@),
            Cartridge::Mbc3(c) => CartState::Mbc3(c@),
            Cartridge::Mbc5(c) => CartState::Mbc5(c@),
        }
    }
}

/// Whether the emulator can load the image (see [`rom_is_loadable`]); the
/// loaders refuse other images.
pub fn rom_is_supported(romdata: &Vec<u8>) -> (ok: bool)
    ensures
        ok == rom_is_loadable(romdata@),
{
    if romdata.len() <= 0x149 {
        return false;
    }
    let kind = mbc_type_of_code(romdata[0x147]);
    let rom_banks = rom_banks_of_code(romdata[0x148]);
    let ram_banks = ram_banks_of_code(romdata[0x149]);
    match (kind, rom_banks, ram_banks) {
        (Some(kind), Some(rom_banks), Some(_)) => {
            match kind {
                MBC_Type::RomOnly => true,
                _ => rom_banks <= romdata.len() / ROM_BANK_SIZE,
            }
        },
        _ => false,
    }
}

/// Builds the cartridge that the header of the image names.
pub fn new_cartridge(romdata: Vec<u8>) -> (cart: Cartridge)
    requires
        rom_is_loadable(romdata@),
    ensures
        cart@ == CartState::initial(romdata@),
        cart.inv(),
{
    let rom_banks = fetch_rom_banks(&romdata);
    let ram_banks = fetch_ram_banks(&romdata);
    let has_battery = fetch_has_battery(&romdata);
    match fetch_mbc_type(&romdata) {
        MBC_Type::RomOnly => Cartridge::RomOnly(RomOnly::new(romdata, ram_banks, has_battery)),
        MBC_Type::MBC1 => Cartridge::Mbc1(MBC1::new(romdata, rom_banks, ram_banks, has_battery)),
        MBC_Type::MBC2 => Cartridge::Mbc2(MBC2::new(romdata, rom_banks, has_battery)),
        MBC_Type::MBC3 => Cartridge::Mbc3(MBC3::new(romdata, rom_banks, ram_banks, has_battery)),
        _ => Cartridge::Mbc5(MBC5::new(romdata, rom_banks, ram_banks, has_battery)),
    }
}

impl Mbc for Cartridge {
    open spec fn inv(&self) -> bool {
        self@.inv()
    }

    fn read_rom(&self, address: u16) -> (value: u8)
        ensures
            value == self@.rom_byte(address),
    {
        match self {
            Cartridge::RomOnly(c) => c.read_rom(address),
            Cartridge::Mbc1(c) => c.read_rom(address),
            Cartridge::Mbc2(c) => c.read_rom(address),
            Cartridge::Mbc3(c) => c.read_rom(address),
            Cartridge::Mbc5(c) => c.read_rom(address),
        }
    }

    fn write_rom(&mut self, address: u16, value: u8)
        ensures
            final(self)@ == old(self)@.write_rom(address, value),
    {
        match self {
            Cartridge::RomOnly(c) => c.write_rom(address, value),
            Cartridge::Mbc1(c) => c.write_rom(address, value),
            Cartridge::Mbc2(c) => c.write_rom(address, value),
            Cartridge::Mbc3(c) => c.write_rom(address, value),
            Cartridge::Mbc5(c) => c.write_rom(address, value),
        }
    }

    fn read_ram(&mut self, address: u16) -> (value: u8)
        ensures
            value == old(self)@.ram_byte(address),
            final(self)@ == old(self)@.after_ram_read(address),
    {
        match self {
            Cartridge::RomOnly(c) => c.read_ram(address),
            Cartridge::Mbc1(c) => c.read_ram(address),
            Cartridge::Mbc2(c) => c.read_ram(address),
            Cartridge::Mbc3(c) => c.read_ram(address),
            Cartridge::Mbc5(c) => c.read_ram(address),
        }
    }

    fn write_ram(&mut self, address: u16, value: u8)
        ensures
            final(self)@ == old(self)@.write_ram(address, value),
    {
        match self {
            Cartridge::RomOnly(c) => c.write_ram(address, value),
            Cartridge::Mbc1(c) => c.write_ram(address, value),
            Cartridge::Mbc2(c) => c.write_ram(address, value),
            Cartridge::Mbc3(c) => c.write_ram(address, value),
            Cartridge::Mbc5(c) => c.write_ram(address, value),
        }
    }

    fn step(&mut self, m_cycles: u16)
        ensures
            final(self)@ == old(self)@.step(m_cycles),
    {
        match self {
            Cartridge::RomOnly(c) => c.step(m_cycles),
            Cartridge::Mbc1(c) => c.step(m_cycles),
            Cartridge::Mbc2(c) => c.step(m_cycles),
            Cartridge::Mbc3(c) => c.step(m_cycles),
            Cartridge::Mbc5(c) => c.step(m_cycles),
        }
    }

    fn save_ram(&self) -> (save: Vec<u8>)
        ensures
            save@ == self@.save(),
    {
        match self {
            Cartridge::RomOnly(c) => c.save_ram(),
            Cartridge::Mbc1(c) => c.save_ram(),
            Cartridge::Mbc2(c) => c.save_ram(),
            Cartridge::Mbc3(c) => c.save_ram(),
            Cartridge::Mbc5(c) => c.save_ram(),
        }
    }

    fn load_ram(&mut self, save: &[u8])
        ensures
            final(self)@ == old(self)@.load(save@),
    {
        match self {
            Cartridge::RomOnly(c) => c.load_ram(save),
            Cartridge::Mbc1(c) => c.load_ram(save),
            Cartridge::Mbc2(c) => c.load_ram(save),
            Cartridge::Mbc3(c) => c.load_ram(save),
            Cartridge::Mbc5(c) => c.load_ram(save),
        }
    }
}

} // verus!
