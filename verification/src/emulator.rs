//! The console: processor, joypad, timer and PPU, and one step of the main
//! loop that runs them together.

use crate::cartrige::{rom_is_loadable, Mbc};
use crate::cpu::{Cpu, CpuState};
use crate::memory::{MemState, Memory};
use crate::ppu::{ppu_step, Ppu, PpuState};
use crate::timer::{timer_ticks, Timer};
use vstd::prelude::*;

verus! {

/// The buttons; `true` means released (the hardware reads 1 for a button
/// that is not pressed).
pub struct Joypad {
    pub right: bool,
    pub left: bool,
    pub up: bool,
    pub down: bool,
    pub a: bool,
    pub b: bool,
    pub select: bool,
    pub start: bool,
}

/// Four button lines packed into a nibble, bit 0 first.
pub open spec fn button_bits(b0: bool, b1: bool, b2: bool, b3: bool) -> u8 {
    (if b0 { 1u8 } else { 0u8 }) | (if b1 { 2u8 } else { 0u8 }) | (if b2 { 4u8 } else { 0u8 }) | (if b3 {
        8u8
    } else {
        0u8
    })
}

/// The low nibble of the joypad register for the selection in bits 4
/// (directions, active low) and 5 (buttons, active low) of its old value.
/// With both groups selected each bit reads low when either of its buttons
/// is pressed; with none selected it reads 0x0F.
pub open spec fn joypad_nibble(j: Joypad, old_state: u8) -> u8 {
    let directions = old_state & 0x10 == 0;
    let buttons = old_state & 0x20 == 0;
    if buttons && directions {
        button_bits(j.a && j.right, j.b && j.left, j.select && j.up, j.start && j.down)
    } else if buttons {
        button_bits(j.a, j.b, j.select, j.start)
    } else if directions {
        button_bits(j.right, j.left, j.up, j.down)
    } else {
        0x0F
    }
}

/// The joypad register refreshed from the buttons: the selected group shows
/// in the low nibble, and a bit going from 1 to 0 (a press) requests the
/// joypad interrupt (bit 4 of IF).
pub open spec fn joypad_update(j: Joypad, m: MemState) -> MemState {
    let old_state = m.read_value(0xFF00);
    let new_state = (old_state & 0xF0) | joypad_nibble(j, old_state);
    let m1 = m.after_read(0xFF00).write(0xFF00, new_state);
    if old_state & !new_state & 0x0F != 0 {
        m1.after_read(0xFF0F).write(0xFF0F, m1.read_value(0xFF0F) | 0x10)
    } else {
        m1
    }
}

/// One step of the main loop: interrupts are checked; without one served,
/// the processor executes an instruction, or idles for one cycle while
/// halted; then the PPU, the timer and the cartridge run for the same
/// number of cycles and the joypad register is refreshed.  Also gives the
/// number of cycles.
pub open spec fn emulator_tick(cpu: CpuState, joypad: Joypad, timer: Timer, ppu: PpuState) -> (
    CpuState,
    Timer,
    PpuState,
    u32,
) {
    let (c1, served) = cpu.handle_interrupts();
    let (c2, used) = if served != 0 {
        (c1, served)
    } else if !c1.halted {
        c1.step()
    } else {
        (c1, 1u8)
    };
    let (p3, m3) = ppu_step(ppu, c2.mem, used as u16);
    let (t4, m4) = timer_ticks(timer, m3, (used * 4) as nat);
    let m5 = MemState { cart: m4.cart.step(used as u16), ..m4 };
    (CpuState { mem: joypad_update(joypad, m5), ..c2 }, t4, p3, used as u32)
}

/// Each button line reads in its own bit: bit `i` of the nibble is set
/// exactly when line `i` is (that is, when its button is released).
pub proof fn law_button_bits(b0: bool, b1: bool, b2: bool, b3: bool)
    ensures
        button_bits(b0, b1, b2, b3) < 16,
        (button_bits(b0, b1, b2, b3) & 0x01 != 0) == b0,
        (button_bits(b0, b1, b2, b3) & 0x02 != 0) == b1,
        (button_bits(b0, b1, b2, b3) & 0x04 != 0) == b2,
        (button_bits(b0, b1, b2, b3) & 0x08 != 0) == b3,
{
    let v = button_bits(b0, b1, b2, b3);
    assert(v < 16 && (v & 0x01 != 0) == b0 && (v & 0x02 != 0) == b1 && (v & 0x04 != 0) == b2 && (v
        & 0x08 != 0) == b3) by (bit_vector)
        requires
            v == (if b0 { 1u8 } else { 0u8 }) | (if b1 { 2u8 } else { 0u8 }) | (if b2 { 4u8 } else { 0u8 })
                | (if b3 { 8u8 } else { 0u8 }),
    ;
}

/// Machine cycles in one frame (59.7 frames per second at 1 MiHz).
pub const TICKS_PER_FRAME: u32 = 17556;

/// Whether the console can take its next main-loop step: the program
/// counter of the next fetch leaves room for an instruction, and the PPU's
/// line timer for the cycles of a step.
pub open spec fn tick_fits(cpu: CpuState, ppu: PpuState) -> bool {
    &&& CpuState::pc_fits(cpu.fetch_pc())
    &&& ppu.ticks + 255 <= u32::MAX
}

/// One turn of a frame's loop: a main-loop step, and the budget of machine
/// cycles left in the frame after it.  The cycles are taken from the budget
/// with 32-bit wrapping subtraction, so a step that overshoots the budget
/// leaves it just below 2^32.
pub open spec fn frame_tick_spec(cpu: CpuState, joypad: Joypad, timer: Timer, ppu: PpuState, budget: u32) -> (
    CpuState,
    Timer,
    PpuState,
    u32,
) {
    let (c, t, p, used) = emulator_tick(cpu, joypad, timer, ppu);
    (c, t, p, budget.wrapping_sub(used))
}

/// A halted processor wakes up as soon as an enabled interrupt is requested
/// (IF & IE nonzero), whether or not IME is on; until then each step of the
/// main loop idles for one cycle and leaves the program counter alone.
pub proof fn law_halt_waits_for_interrupt(cpu: CpuState, joypad: Joypad, timer: Timer, ppu: PpuState)
    requires
        cpu.inv(),
        cpu.halted,
    ensures
        cpu.mem.bus[0xFF0F] & cpu.mem.bus[0xFFFF] != 0 ==> !cpu.handle_interrupts().0.halted,
        cpu.mem.bus[0xFF0F] & cpu.mem.bus[0xFFFF] == 0 ==> {
            let (c, t, p, used) = emulator_tick(cpu, joypad, timer, ppu);
            &&& c.halted
            &&& c.pc == cpu.pc
            &&& used == 1
        },
{
}

/// The bits of the joypad register after a refresh from its old value, the
/// new low nibble and the request flags.
proof fn lemma_joypad_bits(old_state: u8, nibble: u8, flags: u8)
    requires
        nibble < 16,
    ensures
        ({
            let r = (old_state & 0xF0) | nibble;
            &&& r & 0xF0 == old_state & 0xF0
            &&& r & 0x0F == nibble
            &&& r & 0x01 == nibble & 0x01
            &&& r & 0x02 == nibble & 0x02
            &&& r & 0x04 == nibble & 0x04
            &&& r & 0x08 == nibble & 0x08
        }),
        (old_state & 0x30 == 0x20) == (old_state & 0x10 == 0 && old_state & 0x20 != 0),
        (old_state & 0x30 == 0x10) == (old_state & 0x10 != 0 && old_state & 0x20 == 0),
        (old_state & 0x30 == 0x00) == (old_state & 0x10 == 0 && old_state & 0x20 == 0),
        (old_state & 0x30 == 0x30) == (old_state & 0x10 != 0 && old_state & 0x20 != 0),
        (flags | 0x10) & 0x10 != 0,
{
    let r = (old_state & 0xF0) | nibble;
    assert(r & 0xF0 == old_state & 0xF0 && r & 0x0F == nibble && r & 0x01 == nibble & 0x01 && r & 0x02
        == nibble & 0x02 && r & 0x04 == nibble & 0x04 && r & 0x08 == nibble & 0x08 && (old_state & 0x30
        == 0x20) == (old_state & 0x10 == 0 && old_state & 0x20 != 0) && (old_state & 0x30 == 0x10) == (
    old_state & 0x10 != 0 && old_state & 0x20 == 0) && (old_state & 0x30 == 0x00) == (old_state & 0x10
        == 0 && old_state & 0x20 == 0) && (old_state & 0x30 == 0x30) == (old_state & 0x10 != 0
        && old_state & 0x20 != 0) && (flags | 0x10) & 0x10 != 0) by (bit_vector)
        requires
            nibble < 16,
            r == (old_state & 0xF0) | nibble,
    ;
}

/// What a refresh writes to the joypad register 0xFF00: the selection bits
/// (high nibble) stay, and in the low nibble a bit reads 0 exactly when a
/// button of a selected group is pressed.  With directions selected (bit 4
/// clear, bit 5 set) bits 0-3 are Right, Left, Up, Down; with the buttons
/// selected (bit 5 clear, bit 4 set) they are A, B, Select, Start; with both,
/// each bit reads 0 when either of its two buttons is pressed; with neither,
/// all four read 1.  A bit going from 1 to 0 requests the joypad interrupt.
pub proof fn law_joypad_register(j: Joypad, m: MemState)
    requires
        m.inv(),
    ensures
        ({
            let before = m.bus[0xFF00];
            let after = joypad_update(j, m).bus[0xFF00];
            &&& after & 0xF0 == before & 0xF0
            &&& before & 0x30 == 0x20 ==> {
                &&& (after & 0x01 == 0) == !j.right
                &&& (after & 0x02 == 0) == !j.left
                &&& (after & 0x04 == 0) == !j.up
                &&& (after & 0x08 == 0) == !j.down
            }
            &&& before & 0x30 == 0x10 ==> {
                &&& (after & 0x01 == 0) == !j.a
                &&& (after & 0x02 == 0) == !j.b
                &&& (after & 0x04 == 0) == !j.select
                &&& (after & 0x08 == 0) == !j.start
            }
            &&& before & 0x30 == 0x00 ==> {
                &&& (after & 0x01 == 0) == (!j.a || !j.right)
                &&& (after & 0x02 == 0) == (!j.b || !j.left)
                &&& (after & 0x04 == 0) == (!j.select || !j.up)
                &&& (after & 0x08 == 0) == (!j.start || !j.down)
            }
            &&& before & 0x30 == 0x30 ==> after & 0x0F == 0x0F
            &&& before & !after & 0x0F != 0 ==> joypad_update(j, m).bus[0xFF0F] & 0x10 != 0
        }),
{
    let before = m.bus[0xFF00];
    let nibble = joypad_nibble(j, before);
    law_button_bits(j.a && j.right, j.b && j.left, j.select && j.up, j.start && j.down);
    law_button_bits(j.a, j.b, j.select, j.start);
    law_button_bits(j.right, j.left, j.up, j.down);
    assert(nibble < 16);
    let m1 = m.after_read(0xFF00).write(0xFF00, (before & 0xF0) | nibble);
    lemma_joypad_bits(before, nibble, m1.read_value(0xFF0F));
}

/// Packs four button lines into a nibble, bit 0 first.
fn pack_buttons(b0: bool, b1: bool, b2: bool, b3: bool) -> (nibble: u8)
    ensures
        nibble == button_bits(b0, b1, b2, b3),
{
    (if b0 { 1u8 } else { 0u8 }) | (if b1 { 2u8 } else { 0u8 }) | (if b2 { 4u8 } else { 0u8 }) | (if b3 {
        8u8
    } else {
        0u8
    })
}

impl Joypad {
    /// All buttons released.
    pub fn new() -> (joypad: Self)
        ensures
            joypad == (Joypad {
                right: true,
                left: true,
                up: true,
                down: true,
                a: true,
                b: true,
                select: true,
                start: true,
            }),
    {
        Joypad {
            right: true,
            left: true,
            up: true,
            down: true,
            a: true,
            b: true,
            select: true,
            start: true,
        }
    }
}

/// The console.
pub struct Emulator {
    pub cpu: Cpu,
    pub joypad: Joypad,
    pub timer: Timer,
    pub ppu: Ppu,
}

impl Emulator {
    /// A console powered on with the given cartridge image.
    pub fn new(romdata: Vec<u8>) -> (emulator: Self)
        requires
            rom_is_loadable(romdata@),
        ensures
            emulator.cpu.inv(),
            emulator.cpu@.pc == 0,
            emulator.cpu@.mem == Memory::new_state(romdata@),
            emulator.timer == Timer::new_state(),
            emulator.ppu@.ticks == 0,
    {
        Emulator { cpu: Cpu::new(romdata), joypad: Joypad::new(), timer: Timer::new(), ppu: Ppu::new() }
    }

    /// Refreshes the joypad register (0xFF00) from the buttons.
    pub fn read_joypad(&mut self)
        requires
            old(self).cpu.inv(),
        ensures
            final(self).cpu@ == (CpuState {
                mem: joypad_update(old(self).joypad, old(self).cpu@.mem),
                ..old(self).cpu@
            }),
            final(self).cpu.inv(),
            final(self).joypad == old(self).joypad,
            final(self).timer == old(self).timer,
            final(self).ppu@ == old(self).ppu@,
    {
        let old_state = self.cpu.memory.read_byte(0xFF00);
        let p14 = (old_state >> 4) & 1;
        let p15 = (old_state >> 5) & 1;
        assert(((old_state >> 4) & 1 == 0) == (old_state & 0x10 == 0) && ((old_state >> 5) & 1 == 0)
            == (old_state & 0x20 == 0)) by (bit_vector);
        let j = &self.joypad;
        let joypad_register: u8 = if p15 == 0 {
            if p14 == 0 {
                // Both groups selected.
                pack_buttons(j.a && j.right, j.b && j.left, j.select && j.up, j.start && j.down)
            } else {
                pack_buttons(j.a, j.b, j.select, j.start)
            }
        } else if p14 == 0 {
            pack_buttons(j.right, j.left, j.up, j.down)
        } else {
            0x0F
        };
        assert(joypad_register == joypad_nibble(self.joypad, old_state));
        let ghost m1 = self.cpu.memory@;
        let new_state = (old_state & 0xF0) | joypad_register;
        self.cpu.memory.write_byte(0xFF00, new_state);
        if (old_state & !new_state & 0x0F) != 0 {
            let current_if = self.cpu.memory.read_byte(0xFF0F);
            self.cpu.memory.write_byte(0xFF0F, current_if | 0b0001_0000);
        }
    }

    /// One step of the main loop; returns the machine cycles it took.
    pub fn tick(&mut self) -> (used: u32)
        requires
            old(self).cpu.inv(),
            CpuState::pc_fits(old(self).cpu@.fetch_pc()),
            old(self).ppu@.ticks + 255 <= u32::MAX,
        ensures
            (final(self).cpu@, final(self).timer, final(self).ppu@, used) == emulator_tick(
                old(self).cpu@,
                old(self).joypad,
                old(self).timer,
                old(self).ppu@,
            ),
            final(self).cpu.inv(),
            final(self).joypad == old(self).joypad,
    {
        let mut used_ticks = self.cpu.handle_interrupts() as u32;
        if used_ticks == 0 {
            if !self.cpu.halted {
                used_ticks = self.cpu.step() as u32;
            } else {
                used_ticks = 1;
            }
        }
        self.ppu.step(used_ticks as u16, &mut self.cpu.memory);
        self.timer.step(used_ticks as u8, &mut self.cpu.memory);
        self.cpu.memory.cartrige.step(used_ticks as u16);
        self.read_joypad();
        used_ticks
    }

    /// Whether the next main-loop step can be taken (see [`tick_fits`]).
    pub fn can_tick(&self) -> (fits: bool)
        ensures
            fits == tick_fits(self.cpu@, self.ppu@),
    {
        let pc = if self.cpu.halt_bug {
            self.cpu.program_counter.wrapping_sub(1)
        } else {
            self.cpu.program_counter
        };
        let signed = #[verifier::truncate] (pc as i32);
        pc <= usize::MAX - 3 && -0x7FFF_FF00 <= signed && signed <= 0x7FFF_FF00 && self.ppu.ticks()
            <= u32::MAX - 255
    }

    /// One turn of a frame's loop: a main-loop step, whose cycles are taken
    /// from `budget` (wrapping below zero); returns what is left.  A frame
    /// refreshes the joypad, then turns until nothing is left of
    /// [`TICKS_PER_FRAME`].
    pub fn frame_tick(&mut self, budget: u32) -> (remaining: u32)
        requires
            old(self).cpu.inv(),
            tick_fits(old(self).cpu@, old(self).ppu@),
        ensures
            (final(self).cpu@, final(self).timer, final(self).ppu@, remaining) == frame_tick_spec(
                old(self).cpu@,
                old(self).joypad,
                old(self).timer,
                old(self).ppu@,
                budget,
            ),
            final(self).cpu.inv(),
            final(self).joypad == old(self).joypad,
    {
        let used = self.tick();
        budget.wrapping_sub(used)
    }
}

} // verus!
