//! Decoding of the cartridge header fields at 0x147..0x149.

use super::MBC_Type;
use vstd::prelude::*;

verus! {

/// Number of 8 KiB RAM banks announced by the RAM size code at 0x149,
/// `None` for a code the emulator does not know.
pub open spec fn ram_banks_for_code(code: u8) -> Option<usize> {
    match code {
        0x00 => Some(0usize),
        0x01 => Some(1usize),
        0x02 => Some(1usize),
        0x03 => Some(4usize),
        0x04 => Some(16usize),
        0x05 => Some(8usize),
        _ => None,
    }
}

/// Number of 16 KiB ROM banks announced by the ROM size code at 0x148,
/// `None` for a code the emulator does not know.
pub open spec fn rom_banks_for_code(code: u8) -> Option<usize> {
    match code {
        0x00 => Some(2usize),
        0x01 => Some(4usize),
        0x02 => Some(8usize),
        0x03 => Some(16usize),
        0x04 => Some(32usize),
        0x05 => Some(64usize),
        0x06 => Some(128usize),
        0x07 => Some(256usize),
        0x52 => Some(72usize),
        0x53 => Some(80usize),
        0x54 => Some(96usize),
        _ => None,
    }
}

/// The ROM size codes 0x00..=0x07 announce 32 KiB shifted left by the code:
/// code 0 gives two 16 KiB banks and each further code doubles the count
/// (so code 4, 512 KiB, gives 32 banks); every code is known up to 0x07 and
/// none between 0x08 and 0x51.
pub proof fn law_rom_size_doubles(code: u8)
    ensures
        rom_banks_for_code(0) == Some(2usize),
        code < 7 ==> rom_banks_for_code(code) is Some && rom_banks_for_code((code + 1) as u8) is Some
            && rom_banks_for_code((code + 1) as u8).unwrap() == 2 * rom_banks_for_code(code).unwrap(),
        0x08 <= code < 0x52 ==> rom_banks_for_code(code) is None,
{
}

/// Whether the cartridge type code at 0x147 names a battery-backed cartridge.
pub open spec fn battery_for_code(code: u8) -> bool {
    code == 0x03 || code == 0x06 || code == 0x09 || code == 0x0F || code == 0x10 || code == 0x13
        || code == 0x1B || code == 0x1E
}

/// The controller named by the cartridge type code at 0x147, `None` for the
/// types the emulator does not implement.
pub open spec fn mbc_type_for_code(code: u8) -> Option<MBC_Type> {
    if code == 0x00 || code == 0x08 || code == 0x09 {
        Some(MBC_Type::RomOnly)
    } else if code == 0x01 || code == 0x02 || code == 0x03 {
        Some(MBC_Type::MBC1)
    } else if code == 0x05 || code == 0x06 {
        Some(MBC_Type::MBC2)
    } else if 0x0F <= code <= 0x13 {
        Some(MBC_Type::MBC3)
    } else if 0x19 <= code <= 0x1E {
        Some(MBC_Type::MBC5)
    } else {
        None
    }
}

/// The number of RAM banks for a RAM size code, `None` for an unknown code.
pub fn ram_banks_of_code(code: u8) -> (banks: Option<usize>)
    ensures
        banks == ram_banks_for_code(code),
{
    match code {
        0x00 => Some(0),
        0x01 => Some(1),
        0x02 => Some(1),
        0x03 => Some(4),
        0x04 => Some(16),
        0x05 => Some(8),
        _ => None,
    }
}

/// The number of ROM banks for a ROM size code, `None` for an unknown code.
pub fn rom_banks_of_code(code: u8) -> (banks: Option<usize>)
    ensures
        banks == rom_banks_for_code(code),
{
    match code {
        0x00 => Some(2),
        0x01 => Some(4),
        0x02 => Some(8),
        0x03 => Some(16),
        0x04 => Some(32),
        0x05 => Some(64),
        0x06 => Some(128),
        0x07 => Some(256),
        0x52 => Some(72),
        0x53 => Some(80),
        0x54 => Some(96),
        _ => None,
    }
}

/// The controller for a cartridge type code, `None` for a type the emulator
/// does not implement.
pub fn mbc_type_of_code(code: u8) -> (kind: Option<MBC_Type>)
    ensures
        kind == mbc_type_for_code(code),
{
    match code {
        0x00 | 0x08 | 0x09 => Some(MBC_Type::RomOnly),
        0x01 | 0x02 | 0x03 => Some(MBC_Type::MBC1),
        0x05 | 0x06 => Some(MBC_Type::MBC2),
        0x0F | 0x10 | 0x11 | 0x12 | 0x13 => Some(MBC_Type::MBC3),
        0x19 | 0x1A | 0x1B | 0x1C | 0x1D | 0x1E => Some(MBC_Type::MBC5),
        _ => None,
    }
}

/// Reads the RAM size code of the header and returns the number of RAM banks.
pub fn fetch_ram_banks(romdata: &Vec<u8>) -> (banks: usize)
    requires
        romdata@.len() > 0x149,
        ram_banks_for_code(romdata@[0x149]) is Some,
    ensures
        ram_banks_for_code(romdata@[0x149]) == Some(banks),
{
    ram_banks_of_code(romdata[0x149]).unwrap()
}

/// Reads the ROM size code of the header and returns the number of ROM banks.
pub fn fetch_rom_banks(romdata: &Vec<u8>) -> (banks: usize)
    requires
        romdata@.len() > 0x148,
        rom_banks_for_code(romdata@[0x148]) is Some,
    ensures
        rom_banks_for_code(romdata@[0x148]) == Some(banks),
{
    rom_banks_of_code(romdata[0x148]).unwrap()
}

/// Whether the cartridge type code of the header names a battery.
pub fn fetch_has_battery(romdata: &[u8]) -> (battery: bool)
    requires
        romdata@.len() > 0x147,
    ensures
        battery == battery_for_code(romdata@[0x147]),
{
    let mbc_type_code = romdata[0x147];
    match mbc_type_code {
        0x03 | 0x06 | 0x09 | 0x0F | 0x10 | 0x13 | 0x1B | 0x1E => true,
        _ => false,
    }
}

/// Reads the cartridge type code of the header and returns its controller.
pub fn fetch_mbc_type(romdata: &[u8]) -> (kind: MBC_Type)
    requires
        romdata@.len() > 0x147,
        mbc_type_for_code(romdata@[0x147]) is Some,
    ensures
        mbc_type_for_code(romdata@[0x147]) == Some(kind),
{
    mbc_type_of_code(romdata[0x147]).unwrap()
}

} // verus!
