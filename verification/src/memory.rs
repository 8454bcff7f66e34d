//! The 64 KiB address space: the cartridge behind 0x0000..=0x7FFF and
//! 0xA000..=0xBFFF, video RAM and OAM that the PPU locks while it uses them,
//! the DIV register and OAM DMA.

use crate::cartrige::{new_cartridge, rom_is_loadable, CartState, Cartridge, Mbc};
use vstd::prelude::*;

verus! {

/// The memory map.  `address_bus` holds every byte that does not live on
/// the cartridge.
pub struct Memory {
    pub address_bus: [u8; 0x10000],
    pub div_reset: bool,
    pub ppu_mode: u8,
    pub cartrige: Cartridge,
}

/// The abstract state of the [`Memory`].
#[verifier::ext_equal]
pub struct MemState {
    pub bus: Seq<u8>,
    pub div_reset: bool,
    pub ppu_mode: u8,
    pub cart: CartState,
}

/// Whether an address is in the cartridge ROM window.
pub open spec fn is_rom_address(address: u16) -> bool {
    address <= 0x7FFF
}

/// Whether an address is in the cartridge RAM window.
pub open spec fn is_cart_ram_address(address: u16) -> bool {
    0xA000 <= address <= 0xBFFF
}

/// Whether an address is in video RAM.
pub open spec fn is_vram_address(address: u16) -> bool {
    0x8000 <= address <= 0x9FFF
}

/// Whether an address is in the object attribute memory.
pub open spec fn is_oam_address(address: u16) -> bool {
    0xFE00 <= address <= 0xFE9F
}

impl MemState {
    pub open spec fn inv(self) -> bool {
        self.bus.len() == 0x10000 && self.cart.inv()
    }

    /// Whether the PPU locks the address: video RAM in mode 3, OAM in modes 2
    /// and 3.
    pub open spec fn locked(self, address: u16) -> bool {
        ||| is_vram_address(address) && self.ppu_mode == 3
        ||| is_oam_address(address) && (self.ppu_mode == 2 || self.ppu_mode == 3)
    }

    /// The byte a CPU read returns: the cartridge for its windows, 0xFF for a
    /// locked address, the bus otherwise.
    pub open spec fn read_value(self, address: u16) -> u8 {
        if is_rom_address(address) {
            self.cart.rom_byte(address)
        } else if is_cart_ram_address(address) {
            self.cart.ram_byte(address)
        } else if self.locked(address) {
            0xFF
        } else {
            self.bus[address as int]
        }
    }

    /// The state after a read: only a read of the cartridge RAM window can
    /// change anything.
    pub open spec fn after_read(self, address: u16) -> MemState {
        if is_cart_ram_address(address) {
            MemState { cart: self.cart.after_ram_read(address), ..self }
        } else {
            self
        }
    }

    pub open spec fn set_bus(self, address: int, value: u8) -> MemState {
        MemState { bus: self.bus.update(address, value), ..self }
    }

    /// A read by the DMA unit, which ignores the PPU locks.
    pub open spec fn dma_value(self, address: u16) -> u8 {
        if is_rom_address(address) {
            self.cart.rom_byte(address)
        } else if is_cart_ram_address(address) {
            self.cart.ram_byte(address)
        } else {
            self.bus[address as int]
        }
    }

    /// The first `n` bytes of an OAM DMA from `source`: byte `i` goes to
    /// `0xFE00 + i`, in order.
    pub open spec fn dma_copy(self, source: int, n: nat) -> MemState
        decreases n,
    {
        if n == 0 {
            self
        } else {
            let before = self.dma_copy(source, (n - 1) as nat);
            let address = (source + n - 1) as u16;
            before.after_read(address).set_bus(0xFE00 + n - 1, before.dma_value(address))
        }
    }

    /// The state after a CPU write: the cartridge takes the ROM window (as
    /// register writes) and its RAM window, a locked address ignores the
    /// write, a write to DIV (0xFF04) clears it and asks the timer to restart
    /// its counter, a write to 0xFF46 copies 160 bytes from `value * 0x100`
    /// into OAM, and any other address stores the byte.
    pub open spec fn write(self, address: u16, value: u8) -> MemState {
        if is_rom_address(address) {
            MemState { cart: self.cart.write_rom(address, value), ..self }
        } else if is_cart_ram_address(address) {
            MemState { cart: self.cart.write_ram(address, value), ..self }
        } else if self.locked(address) {
            self
        } else if address == 0xFF04 {
            MemState { bus: self.bus.update(0xFF04, 0), div_reset: true, ..self }
        } else if address == 0xFF46 {
            self.set_bus(0xFF46, value).dma_copy(value * 0x100, 160)
        } else {
            self.set_bus(address as int, value)
        }
    }
}

impl View for Memory {
    type V = MemState;

    open spec fn view(&self) -> MemState {
        MemState {
            bus: self.address_bus@,
            div_reset: self.div_reset,
            ppu_mode: self.ppu_mode,
            cart: self.cartrige@,
        }
    }
}

impl Memory {
    pub open spec fn inv(&self) -> bool {
        self.cartrige.inv()
    }

    /// The memory map of a freshly powered console: the bus cleared, the PPU
    /// in mode 2 and the cartridge just inserted.
    pub open spec fn new_state(romdata: Seq<u8>) -> MemState {
        MemState {
            bus: Seq::new(0x10000, |i: int| 0u8),
            div_reset: false,
            ppu_mode: 2,
            cart: CartState::initial(romdata),
        }
    }

    /// The memory map of a freshly powered console with the given cartridge
    /// image.
    pub fn new(romdata: Vec<u8>) -> (memory: Self)
        requires
            rom_is_loadable(romdata@),
        ensures
            memory@ == Memory::new_state(romdata@),
            memory.inv(),
    {
        let bus = [0u8; 0x10000];
        assert(bus@ =~= Seq::new(0x10000, |i: int| 0u8));
        Memory { address_bus: bus, div_reset: false, ppu_mode: 2, cartrige: new_cartridge(romdata) }
    }

    /// A CPU read.
    pub fn read_byte(&mut self, address: u16) -> (value: u8)
        requires
            old(self).inv(),
        ensures
            value == old(self)@.read_value(address),
            final(self)@ == old(self)@.after_read(address),
            final(self).inv(),
    {
        if address <= 0x7FFF {
            return self.cartrige.read_rom(address);
        }
        if 0xA000 <= address && address <= 0xBFFF {
            return self.cartrige.read_ram(address);
        }
        if 0x8000 <= address && address <= 0x9FFF && self.ppu_mode == 3 {
            return 0xFF;
        }
        if 0xFE00 <= address && address <= 0xFE9F && (self.ppu_mode == 2 || self.ppu_mode == 3) {
            return 0xFF;
        }
        self.address_bus[address as usize]
    }

    /// A CPU write.
    pub fn write_byte(&mut self, address: u16, value: u8)
        requires
            old(self).inv(),
        ensures
            final(self)@ == old(self)@.write(address, value),
            final(self).inv(),
    {
        if address <= 0x7FFF {
            self.cartrige.write_rom(address, value);
        } else if 0xA000 <= address && address <= 0xBFFF {
            self.cartrige.write_ram(address, value);
        } else if 0x8000 <= address && address <= 0x9FFF && self.ppu_mode == 3 {
        } else if 0xFE00 <= address && address <= 0xFE9F && (self.ppu_mode == 2 || self.ppu_mode
            == 3) {
        } else if address == 0xFF04 {
            self.address_bus[0xFF04] = 0;
            self.div_reset = true;
        } else if address == 0xFF46 {
            self.address_bus[0xFF46] = value;
            let copy_address = (value as u16) * 256;
            let ghost start = self@;
            let mut i: u16 = 0;
            while i < 160
                invariant
                    i <= 160,
                    copy_address == value * 256,
                    self.inv(),
                    self@ == start.dma_copy(copy_address as int, i as nat),
                decreases 160 - i,
            {
                let byte = self.dma_source_byte(copy_address + i);
                self.address_bus[0xFE00 + i as usize] = byte;
                i = i + 1;
            }
        } else {
            self.address_bus[address as usize] = value;
        }
    }

    /// A read by the DMA unit, which ignores the PPU locks.
    fn dma_source_byte(&mut self, address: u16) -> (value: u8)
        requires
            old(self).inv(),
        ensures
            value == old(self)@.dma_value(address),
            final(self)@ == old(self)@.after_read(address),
            final(self).inv(),
    {
        if address <= 0x7FFF {
            return self.cartrige.read_rom(address);
        }
        if 0xA000 <= address && address <= 0xBFFF {
            return self.cartrige.read_ram(address);
        }
        self.address_bus[address as usize]
    }
}


impl MemState {
    /// Whether the CPU simply stores and loads the byte at `address`: outside
    /// the cartridge windows, not locked by the PPU, and neither DIV nor the
    /// DMA register.
    pub open spec fn is_plain(self, address: u16) -> bool {
        &&& !is_rom_address(address)
        &&& !is_cart_ram_address(address)
        &&& !self.locked(address)
        &&& address != 0xFF04
        &&& address != 0xFF46
    }
}

/// A plain address reads back the byte last written to it, reading it changes
/// nothing, and the write leaves what every other address reads unchanged.
pub proof fn law_plain_write_then_read(m: MemState, address: u16, value: u8, other: u16)
    requires
        m.inv(),
        m.is_plain(address),
        other != address,
    ensures
        m.write(address, value).inv(),
        m.write(address, value).read_value(address) == value,
        m.write(address, value).after_read(address) == m.write(address, value),
        m.write(address, value).read_value(other) == m.read_value(other),
        m.write(address, value).is_plain(other) == m.is_plain(other),
{
}

/// While the PPU uses video RAM or OAM, the CPU reads 0xFF there and its
/// writes are dropped.
pub proof fn law_locked_memory(m: MemState, address: u16, value: u8)
    requires
        m.locked(address),
    ensures
        m.read_value(address) == 0xFF,
        m.write(address, value) == m,
{
}

/// Any write to DIV (0xFF04) resets it to 0 and signals the timer.
pub proof fn law_div_write_resets(m: MemState, value: u8)
    requires
        m.inv(),
    ensures
        m.write(0xFF04, value).read_value(0xFF04) == 0,
        m.write(0xFF04, value).div_reset,
{
}

/// A DMA source page that the copy cannot disturb: outside the cartridge RAM
/// window and below OAM.
pub open spec fn dma_page_is_plain(page: u8) -> bool {
    page < 0xA0 || (0xC0 <= page && page < 0xFE)
}

/// The first `n` bytes of a copy from a plain page land in OAM in order, and
/// nothing below OAM changes.
proof fn lemma_dma_copy(m: MemState, page: u8, n: nat)
    requires
        m.inv(),
        dma_page_is_plain(page),
        n <= 160,
    ensures
        m.dma_copy(page * 0x100, n).inv(),
        m.dma_copy(page * 0x100, n).cart == m.cart,
        forall|i: int| 0 <= i < n ==> #[trigger] m.dma_copy(page * 0x100, n).bus[0xFE00 + i]
            == m.dma_value((page * 0x100 + i) as u16),
        forall|a: int| 0 <= a < 0xFE00 ==> #[trigger] m.dma_copy(page * 0x100, n).bus[a] == m.bus[a],
    decreases n,
{
    if n > 0 {
        lemma_dma_copy(m, page, (n - 1) as nat);
        let before = m.dma_copy(page * 0x100, (n - 1) as nat);
        let address = (page * 0x100 + n - 1) as u16;
        assert(!is_cart_ram_address(address));
        assert(before.dma_value(address) == m.dma_value(address));
    }
}

/// A write of `page` to 0xFF46 copies the 160 bytes at `page * 0x100` into
/// OAM (0xFE00..=0xFE9F), byte `i` to `0xFE00 + i`.
pub proof fn law_dma_fills_oam(m: MemState, page: u8, i: int)
    requires
        m.inv(),
        dma_page_is_plain(page),
        0 <= i < 160,
    ensures
        m.write(0xFF46, page).bus[0xFE00 + i] == m.dma_value((page * 0x100 + i) as u16),
{
    let m1 = m.set_bus(0xFF46, page);
    lemma_dma_copy(m1, page, 160);
    assert(m1.dma_value((page * 0x100 + i) as u16) == m.dma_value((page * 0x100 + i) as u16));
}

} // verus!
