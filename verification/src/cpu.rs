//! The LR35902 CPU: registers, flags, interrupts and the instruction decoder.
//! The instructions themselves live in the submodules, each with its meaning
//! as a function on [`CpuState`].

pub mod alu16;
pub mod alu8;
pub mod cb;
pub mod jumps;
pub mod loads;
pub mod misc;

use crate::cartrige::rom_is_loadable;
use crate::memory::{law_plain_write_then_read, MemState, Memory};
use vstd::prelude::*;

verus! {

/// Index of register B in `work_registers`.
pub const R8_B: u8 = 0;

/// Index of register C in `work_registers`.
pub const R8_C: u8 = 1;

/// Index of register D in `work_registers`.
pub const R8_D: u8 = 2;

/// Index of register E in `work_registers`.
pub const R8_E: u8 = 3;

/// Index of register H in `work_registers`.
pub const R8_H: u8 = 4;

/// Index of register L in `work_registers`.
pub const R8_L: u8 = 5;

/// Index of the flag register F in `work_registers`.
pub const R8_F: u8 = 6;

/// Index of the accumulator A in `work_registers`.
pub const R8_A: u8 = 7;

/// Register pair BC as encoded in opcodes.
pub const R16_BC: u8 = 0;

/// Register pair DE as encoded in opcodes.
pub const R16_DE: u8 = 1;

/// Register pair HL as encoded in opcodes.
pub const R16_HL: u8 = 2;

/// The stack pointer as encoded in opcodes.
pub const R16_SP: u8 = 3;

/// The processor: program counter, stack pointer, interrupt master enable,
/// the halt state, the eight 8-bit registers (B, C, D, E, H, L, F, A in that
/// order) and the memory map.
pub struct Cpu {
    pub program_counter: usize,
    pub stack_pointer: u16,
    pub ime: bool,
    pub halted: bool,
    pub halt_bug: bool,
    pub work_registers: [u8; 8],
    pub memory: Memory,
}

/// The abstract state of the [`Cpu`].
#[verifier::ext_equal]
pub struct CpuState {
    pub pc: usize,
    pub sp: u16,
    pub ime: bool,
    pub halted: bool,
    pub halt_bug: bool,
    pub regs: Seq<u8>,
    pub mem: MemState,
}

/// The bits of the flag register for the four flags: Z (bit 7), N (bit 6),
/// H (bit 5) and C (bit 4).
pub open spec fn flag_bits(z: bool, n: bool, h: bool, c: bool) -> u8 {
    (if z { 0x80u8 } else { 0u8 }) | (if n { 0x40u8 } else { 0u8 }) | (if h { 0x20u8 } else { 0u8 })
        | (if c { 0x10u8 } else { 0u8 })
}

/// The flag register with the four flags replaced; the low nibble is kept.
pub open spec fn flags_with(f: u8, z: bool, n: bool, h: bool, c: bool) -> u8 {
    (f & 0x0F) | flag_bits(z, n, h, c)
}

/// The low nibble of a byte.
pub proof fn lemma_low_nibble(x: u8)
    ensures
        x & 0x0F == x % 16,
        x & 0x0F < 16,
{
    assert((x & 0x0F == x % 16) && (x & 0x0F < 16)) by (bit_vector);
}

/// The low byte of a 16-bit value.
pub proof fn lemma_low_byte(x: u16)
    ensures
        (x as u8) == x % 256,
        x & 0xFF == x % 256,
{
    assert((x as u8) == x % 256 && x & 0xFF == x % 256) by (bit_vector);
}

/// The 16-bit value of a high and a low byte.
pub open spec fn word(high: u8, low: u8) -> u16 {
    (high * 256 + low) as u16
}

/// Joining a high and a low byte into a 16-bit value.
pub proof fn lemma_word_join(high: u16, low: u16)
    requires
        high < 256,
        low < 256,
    ensures
        (high << 8) | low == high * 256 + low,
{
    assert(((high << 8) | low == high * 256 + low)) by (bit_vector)
        requires
        high < 256,
        low < 256,
    ;
}

/// Splitting a 16-bit value into its high and low byte.
pub proof fn lemma_word_split(val: u16)
    ensures
        (val >> 8) as u8 == val / 256,
        (val & 0xFF) as u8 == val % 256,
        (val & 0xF0) as u8 == ((val % 256) as u8) & 0xF0,
{
    assert(((val >> 8) as u8 == val / 256) && ((val & 0xFF) as u8 == val % 256) && ((val & 0xF0) as u8 == ((val % 256) as u8) & 0xF0)) by (bit_vector);
}

/// Setting some flags and then clearing some flags leaves a flag set when it
/// was set before or by the first step, and not cleared by the second.
pub proof fn lemma_set_then_clear(
    f: u8,
    sz: bool,
    sn: bool,
    sh: bool,
    sc: bool,
    cz: bool,
    cn: bool,
    ch: bool,
    cc: bool,
)
    ensures
        (f | flag_bits(sz, sn, sh, sc)) & !flag_bits(cz, cn, ch, cc) == flags_with(
            f,
            (f & 0x80 != 0 || sz) && !cz,
            (f & 0x40 != 0 || sn) && !cn,
            (f & 0x20 != 0 || sh) && !ch,
            (f & 0x10 != 0 || sc) && !cc,
        ),
{
    assert(((f | flag_bits(sz, sn, sh, sc)) & !flag_bits(cz, cn, ch, cc) == flags_with(
            f,
            (f & 0x80 != 0 || sz) && !cz,
            (f & 0x40 != 0 || sn) && !cn,
            (f & 0x20 != 0 || sh) && !ch,
            (f & 0x10 != 0 || sc) && !cc,
        ))) by (bit_vector);
}

/// Setting some flags keeps the others.
pub proof fn lemma_set_only(f: u8, sz: bool, sn: bool, sh: bool, sc: bool)
    ensures
        f | flag_bits(sz, sn, sh, sc) == flags_with(
            f,
            f & 0x80 != 0 || sz,
            f & 0x40 != 0 || sn,
            f & 0x20 != 0 || sh,
            f & 0x10 != 0 || sc,
        ),
{
    assert((f | flag_bits(sz, sn, sh, sc) == flags_with(
            f,
            f & 0x80 != 0 || sz,
            f & 0x40 != 0 || sn,
            f & 0x20 != 0 || sh,
            f & 0x10 != 0 || sc,
        ))) by (bit_vector);
}

/// Clearing some flags keeps the others.
pub proof fn lemma_clear_only(f: u8, cz: bool, cn: bool, ch: bool, cc: bool)
    ensures
        f & !flag_bits(cz, cn, ch, cc) == flags_with(
            f,
            f & 0x80 != 0 && !cz,
            f & 0x40 != 0 && !cn,
            f & 0x20 != 0 && !ch,
            f & 0x10 != 0 && !cc,
        ),
{
    assert((f & !flag_bits(cz, cn, ch, cc) == flags_with(
            f,
            f & 0x80 != 0 && !cz,
            f & 0x40 != 0 && !cn,
            f & 0x20 != 0 && !ch,
            f & 0x10 != 0 && !cc,
        ))) by (bit_vector);
}

/// The four flags read back from a flag register built by [`flags_with`].
pub proof fn lemma_flags_with_bits(f: u8, z: bool, n: bool, h: bool, c: bool)
    ensures
        (flags_with(f, z, n, h, c) & 0x80 != 0) == z,
        (flags_with(f, z, n, h, c) & 0x40 != 0) == n,
        (flags_with(f, z, n, h, c) & 0x20 != 0) == h,
        (flags_with(f, z, n, h, c) & 0x10 != 0) == c,
        flags_with(f, z, n, h, c) & 0x0F == f & 0x0F,
{
    assert(((flags_with(f, z, n, h, c) & 0x80 != 0) == z) && ((flags_with(f, z, n, h, c) & 0x40 != 0) == n) && ((flags_with(f, z, n, h, c) & 0x20 != 0) == h) && ((flags_with(f, z, n, h, c) & 0x10 != 0) == c) && (flags_with(f, z, n, h, c) & 0x0F == f & 0x0F)) by (bit_vector);
}

impl CpuState {
    pub open spec fn inv(self) -> bool {
        self.regs.len() == 8 && self.mem.inv()
    }

    /// The program counter leaves room for the operand fetches and relative
    /// jumps of one instruction without overflow.
    pub open spec fn pc_fits(pc: usize) -> bool {
        &&& pc + 3 <= usize::MAX
        &&& -0x7FFF_FF00 <= (pc as i32) <= 0x7FFF_FF00
    }

    pub open spec fn a(self) -> u8 {
        self.regs[7]
    }

    pub open spec fn f(self) -> u8 {
        self.regs[6]
    }

    pub open spec fn flag_z(self) -> bool {
        self.f() & 0x80 != 0
    }

    pub open spec fn flag_n(self) -> bool {
        self.f() & 0x40 != 0
    }

    pub open spec fn flag_h(self) -> bool {
        self.f() & 0x20 != 0
    }

    pub open spec fn flag_c(self) -> bool {
        self.f() & 0x10 != 0
    }

    /// Register pair `i` (BC, DE, HL; 3 names the bytes F and A).
    pub open spec fn r16(self, i: int) -> u16 {
        word(self.regs[2 * i], self.regs[2 * i + 1])
    }

    pub open spec fn hl(self) -> u16 {
        self.r16(2)
    }

    /// A and F as the pair AF.
    pub open spec fn af(self) -> u16 {
        word(self.regs[7], self.regs[6])
    }

    pub open spec fn set_reg(self, i: int, value: u8) -> CpuState {
        CpuState { regs: self.regs.update(i, value), ..self }
    }

    pub open spec fn set_r16(self, i: int, value: u16) -> CpuState {
        CpuState {
            regs: self.regs.update(2 * i, (value / 256) as u8).update(2 * i + 1, (value % 256) as u8),
            ..self
        }
    }

    /// Pop into AF: the low nibble of F always reads 0.
    pub open spec fn set_af(self, value: u16) -> CpuState {
        CpuState {
            regs: self.regs.update(7, (value / 256) as u8).update(6, ((value % 256) as u8) & 0xF0),
            ..self
        }
    }

    /// The flag register with Z, N, H and C replaced.
    pub open spec fn with_flags(self, z: bool, n: bool, h: bool, c: bool) -> CpuState {
        self.set_reg(6, flags_with(self.f(), z, n, h, c))
    }

    pub open spec fn advance(self, n: usize) -> CpuState {
        CpuState { pc: self.pc.wrapping_add(n), ..self }
    }

    pub open spec fn jump(self, target: usize) -> CpuState {
        CpuState { pc: target, ..self }
    }

    /// A memory read: the value and the state after it.
    pub open spec fn read(self, address: u16) -> (u8, CpuState) {
        (self.mem.read_value(address), CpuState { mem: self.mem.after_read(address), ..self })
    }

    pub open spec fn write(self, address: u16, value: u8) -> CpuState {
        CpuState { mem: self.mem.write(address, value), ..self }
    }

    /// The byte `k` bytes after the opcode.
    pub open spec fn operand(self, k: usize) -> (u8, CpuState) {
        self.read((self.pc + k) as u16)
    }

    /// A little-endian 16-bit operand after the opcode.
    pub open spec fn operand16(self) -> (u16, CpuState) {
        let (lo, s1) = self.operand(1);
        let (hi, s2) = s1.operand(2);
        (word(hi, lo), s2)
    }

    /// Pushes a 16-bit value: high byte first, at the decremented stack
    /// pointer.
    pub open spec fn push(self, value: u16) -> CpuState {
        let s1 = CpuState { sp: self.sp.wrapping_sub(1), ..self };
        let s2 = s1.write(s1.sp, (value / 256) as u8);
        let s3 = CpuState { sp: s2.sp.wrapping_sub(1), ..s2 };
        s3.write(s3.sp, (value % 256) as u8)
    }

    /// Pops a 16-bit value: low byte first.
    pub open spec fn pop(self) -> (u16, CpuState) {
        let (lo, s1) = self.read(self.sp);
        let s2 = CpuState { sp: s1.sp.wrapping_add(1), ..s1 };
        let (hi, s3) = s2.read(s2.sp);
        (word(hi, lo), CpuState { sp: s3.sp.wrapping_add(1), ..s3 })
    }

    /// The branch condition of a conditional jump, call or return: bits 0-1
    /// select NZ, Z, NC or C.
    pub open spec fn condition(self, bits_543: u8) -> bool {
        let sel = bits_543 & 0x03;
        if sel == 0 {
            !self.flag_z()
        } else if sel == 1 {
            self.flag_z()
        } else if sel == 2 {
            !self.flag_c()
        } else {
            self.flag_c()
        }
    }
}


/// The high and low byte of a 16-bit value make it up again.
pub proof fn lemma_word_bytes(v: u16)
    ensures
        word((v / 256) as u8, (v % 256) as u8) == v,
{
}

/// The two bytes below the stack pointer are plain memory, where a push
/// stores its bytes.
pub open spec fn stack_is_plain(s: CpuState) -> bool {
    &&& s.mem.is_plain(s.sp.wrapping_sub(1))
    &&& s.mem.is_plain(s.sp.wrapping_sub(2))
}

/// A push onto plain memory leaves the stack pointer two bytes lower, the
/// low byte at the new stack pointer and the high byte just above it.
pub proof fn lemma_push_writes(s: CpuState, value: u16)
    requires
        s.inv(),
        stack_is_plain(s),
    ensures
        s.push(value).inv(),
        s.push(value).sp == s.sp.wrapping_sub(2),
        s.push(value).mem.read_value(s.sp.wrapping_sub(2)) == (value % 256) as u8,
        s.push(value).mem.read_value(s.sp.wrapping_sub(1)) == (value / 256) as u8,
{
    let hi = (value / 256) as u8;
    let lo = (value % 256) as u8;
    let a1 = s.sp.wrapping_sub(1);
    let a2 = a1.wrapping_sub(1);
    assert(a2 == s.sp.wrapping_sub(2));
    let m1 = s.mem.write(a1, hi);
    law_plain_write_then_read(s.mem, a1, hi, a2);
    law_plain_write_then_read(m1, a2, lo, a1);
}

/// Popping right after a push onto plain memory gives back the pushed value
/// and the stack pointer, and leaves the registers and the program counter
/// alone.
pub proof fn law_push_then_pop(s: CpuState, value: u16)
    requires
        s.inv(),
        stack_is_plain(s),
    ensures
        s.push(value).pop().0 == value,
        s.push(value).pop().1.sp == s.sp,
        s.push(value).pop().1.regs == s.regs,
        s.push(value).pop().1.pc == s.pc,
        s.push(value).pop().1.ime == s.ime,
        s.push(value).pop().1.inv(),
{
    let hi = (value / 256) as u8;
    let lo = (value % 256) as u8;
    let a1 = s.sp.wrapping_sub(1);
    let a2 = a1.wrapping_sub(1);
    assert(a2 == s.sp.wrapping_sub(2));
    let m1 = s.mem.write(a1, hi);
    law_plain_write_then_read(s.mem, a1, hi, a2);
    law_plain_write_then_read(m1, a2, lo, a1);
    lemma_word_bytes(value);
}

/// The interrupt served for a set of pending requests: the lowest of bits
/// 0 (V-Blank), 1 (LCD STAT), 2 (timer), 3 (serial) and 4 (joypad).
pub open spec fn interrupt_index(pending: u8) -> Option<u8> {
    if pending & 0x01 != 0 {
        Some(0u8)
    } else if pending & 0x02 != 0 {
        Some(1u8)
    } else if pending & 0x04 != 0 {
        Some(2u8)
    } else if pending & 0x08 != 0 {
        Some(3u8)
    } else if pending & 0x10 != 0 {
        Some(4u8)
    } else {
        None
    }
}


/// The request bits one by one, lowest first.
proof fn lemma_request_bits(pending: u8)
    ensures
        (1u8 << 0u8) == 0x01 && (1u8 << 1u8) == 0x02 && (1u8 << 2u8) == 0x04 && (1u8 << 3u8) == 0x08
            && (1u8 << 4u8) == 0x10,
        pending & 0x01 != 0 ==> pending & ((1u8 << 0u8) - 1) as u8 == 0,
        pending & 0x01 == 0 ==> pending & ((1u8 << 1u8) - 1) as u8 == 0,
        pending & 0x01 == 0 && pending & 0x02 == 0 ==> pending & ((1u8 << 2u8) - 1) as u8 == 0,
        pending & 0x01 == 0 && pending & 0x02 == 0 && pending & 0x04 == 0 ==> pending & ((1u8 << 3u8)
            - 1) as u8 == 0,
        pending & 0x01 == 0 && pending & 0x02 == 0 && pending & 0x04 == 0 && pending & 0x08 == 0
            ==> pending & ((1u8 << 4u8) - 1) as u8 == 0,
        pending & 0x01 == 0 && pending & 0x02 == 0 && pending & 0x04 == 0 && pending & 0x08 == 0
            && pending & 0x10 == 0 ==> pending & 0x1F == 0,
{
    assert(((1u8 << 0u8) == 0x01 && (1u8 << 1u8) == 0x02 && (1u8 << 2u8) == 0x04 && (1u8 << 3u8) == 0x08
            && (1u8 << 4u8) == 0x10) && (pending & 0x01 != 0 ==> pending & ((1u8 << 0u8) - 1) as u8 == 0) && (pending & 0x01 == 0 ==> pending & ((1u8 << 1u8) - 1) as u8 == 0) && (pending & 0x01 == 0 && pending & 0x02 == 0 ==> pending & ((1u8 << 2u8) - 1) as u8 == 0) && (pending & 0x01 == 0 && pending & 0x02 == 0 && pending & 0x04 == 0 ==> pending & ((1u8 << 3u8)
            - 1) as u8 == 0) && (pending & 0x01 == 0 && pending & 0x02 == 0 && pending & 0x04 == 0 && pending & 0x08 == 0
            ==> pending & ((1u8 << 4u8) - 1) as u8 == 0) && (pending & 0x01 == 0 && pending & 0x02 == 0 && pending & 0x04 == 0 && pending & 0x08 == 0
            && pending & 0x10 == 0 ==> pending & 0x1F == 0)) by (bit_vector);
}

/// The interrupt served is the lowest of the five requested: its bit is set
/// in `pending` and no lower bit is; when none of the five bits is set, none
/// is served.
pub proof fn law_interrupt_priority(pending: u8)
    ensures
        match interrupt_index(pending) {
            Some(i) => i < 5 && pending & (1u8 << i) != 0 && pending & ((1u8 << i) - 1) as u8 == 0,
            None => pending & 0x1F == 0,
        },
{
    lemma_request_bits(pending);
}

impl CpuState {
    /// Serving interrupt `i`: IME off, its request bit cleared, the program
    /// counter pushed and a jump to `0x40 + 8 * i`.
    pub open spec fn serve_interrupt(self, i: u8) -> CpuState {
        let s1 = CpuState { ime: false, ..self };
        let (requested, s2) = s1.read(0xFF0F);
        let s3 = s2.write(0xFF0F, requested & !(1u8 << i));
        s3.push(self.pc as u16).jump((0x40 + 8 * i) as usize)
    }

    /// Interrupt handling before an instruction: any pending request
    /// (IF & IE) ends a halt; with IME on, the lowest pending one is served,
    /// which takes 20 cycles.
    pub open spec fn handle_interrupts(self) -> (CpuState, u8) {
        let (requested, s1) = self.read(0xFF0F);
        let (enabled, s2) = s1.read(0xFFFF);
        let pending = requested & enabled;
        let s3 = if pending != 0 {
            CpuState { halted: false, ..s2 }
        } else {
            s2
        };
        if !s3.ime || pending == 0 {
            (s3, 0u8)
        } else {
            match interrupt_index(pending) {
                Some(i) => (s3.serve_interrupt(i), 20u8),
                None => (s3, 0u8),
            }
        }
    }

    /// The program counter from which the next instruction is fetched: one
    /// less after the halt bug.
    pub open spec fn fetch_pc(self) -> usize {
        if self.halt_bug {
            self.pc.wrapping_sub(1)
        } else {
            self.pc
        }
    }

    /// Executes one instruction: the opcode is read (once for the opcode,
    /// once for each bit field), then dispatched on its fields.
    pub open spec fn step(self) -> (CpuState, u8) {
        let s0 = if self.halt_bug {
            CpuState { pc: self.pc.wrapping_sub(1), halt_bug: false, ..self }
        } else {
            self
        };
        let at = s0.pc as u16;
        let (opcode, s1) = s0.read(at);
        let (r2, s2) = s1.read(at);
        let (r3, s3) = s2.read(at);
        let (r4, s4) = s3.read(at);
        let (r5, s5) = s4.read(at);
        let (r6, s6) = s5.read(at);
        s6.execute(opcode, (r2 & 0xC0) >> 6, r3 & 0x0F, (r4 & 0x30) >> 4, (r5 & 0x38) >> 3, r6 & 0x07)
    }

    /// The dispatch on the opcode and its fields.
    pub open spec fn execute(
        self,
        opcode: u8,
        bits_76: u8,
        bits_3210: u8,
        bits_54: u8,
        bits_543: u8,
        bits_210: u8,
    ) -> (CpuState, u8) {
        if opcode == 0xCB {
            self.execute_cb()
        } else if bits_76 == 0 {
            self.execute_block0(bits_3210, bits_54, bits_543)
        } else if bits_76 == 1 {
            if opcode == 0x76 {
                self.halt()
            } else {
                self.ld_r8_r8(bits_543, bits_210)
            }
        } else if bits_76 == 2 {
            self.alu_r8(bits_543, bits_210)
        } else {
            self.execute_block3(bits_3210, bits_54, bits_543)
        }
    }

    /// Opcodes 0x00..=0x3F.
    pub open spec fn execute_block0(self, bits_3210: u8, bits_54: u8, bits_543: u8) -> (CpuState, u8) {
        if bits_3210 == 0 {
            if bits_54 == 0 {
                (self.advance(1), 1u8)
            } else if bits_54 == 1 {
                (self.advance(2), 1u8)
            } else {
                self.jr_cond_imm8(bits_543)
            }
        } else if bits_3210 == 1 {
            self.ld_r16_imm16(bits_54)
        } else if bits_3210 == 2 {
            self.ld_r16mem_a(bits_54)
        } else if bits_3210 == 10 {
            self.ld_a_r16mem(bits_54)
        } else if bits_3210 == 3 {
            self.inc_r16(bits_54)
        } else if bits_3210 == 11 {
            self.dec_r16(bits_54)
        } else if bits_3210 == 9 {
            self.add_hl_r16(bits_54)
        } else if bits_3210 == 4 || bits_3210 == 12 {
            self.inc_r8(bits_543)
        } else if bits_3210 == 5 || bits_3210 == 13 {
            self.dec_r8(bits_543)
        } else if bits_3210 == 6 || bits_3210 == 14 {
            self.ld_r8_imm8(bits_543)
        } else if bits_3210 == 7 || bits_3210 == 15 {
            if bits_543 == 0 {
                self.rlca()
            } else if bits_543 == 1 {
                self.rrca()
            } else if bits_543 == 2 {
                self.rla()
            } else if bits_543 == 3 {
                self.rra()
            } else if bits_543 == 4 {
                self.daa()
            } else if bits_543 == 5 {
                self.cpl()
            } else if bits_543 == 6 {
                self.scf()
            } else {
                self.ccf()
            }
        } else {
            if bits_54 == 0 {
                self.ld_imm16_sp()
            } else if bits_54 == 1 {
                self.jr_imm8()
            } else {
                self.jr_cond_imm8(bits_543)
            }
        }
    }

    /// Opcodes 0xC0..=0xFF; the opcodes the processor does not have leave
    /// the state as it is and take 0 cycles.
    pub open spec fn execute_block3(self, bits_3210: u8, bits_54: u8, bits_543: u8) -> (CpuState, u8) {
        if bits_3210 == 6 || bits_3210 == 14 {
            self.alu_imm8(bits_543)
        } else if bits_3210 == 1 {
            self.pop_r16(bits_54)
        } else if bits_3210 == 5 {
            self.push_r16(bits_54)
        } else if (bits_3210 == 0 || bits_3210 == 8) && bits_54 <= 1 {
            self.ret_cond(bits_543)
        } else if bits_3210 == 9 && bits_54 == 0 {
            self.ret()
        } else if bits_3210 == 9 && bits_54 == 1 {
            self.reti()
        } else if (bits_3210 == 4 || bits_3210 == 12) && bits_54 <= 1 {
            self.call_cond_imm16(bits_543)
        } else if bits_3210 == 13 && bits_54 == 0 {
            self.call_imm16()
        } else if (bits_3210 == 2 || bits_3210 == 10) && bits_54 <= 1 {
            self.jp_cond_imm16(bits_543)
        } else if bits_3210 == 3 && bits_54 == 0 {
            self.jp_imm16()
        } else if bits_3210 == 9 && bits_54 == 2 {
            self.jp_hl()
        } else if bits_3210 == 7 || bits_3210 == 15 {
            self.rst(bits_543)
        } else if bits_3210 == 0 && bits_54 == 2 {
            self.ld_highpage_n_a()
        } else if bits_3210 == 0 && bits_54 == 3 {
            self.ld_a_highpage_n()
        } else if bits_3210 == 2 && bits_54 == 2 {
            self.ld_highpage_c_a()
        } else if bits_3210 == 2 && bits_54 == 3 {
            self.ld_a_highpage_c()
        } else if bits_3210 == 10 && bits_54 == 2 {
            self.ld_imm16_a()
        } else if bits_3210 == 10 && bits_54 == 3 {
            self.ld_a_imm16()
        } else if bits_3210 == 8 && bits_54 == 2 {
            self.add_sp_imm8()
        } else if bits_3210 == 8 && bits_54 == 3 {
            self.ld_hl_sp_imm8()
        } else if bits_3210 == 9 && bits_54 == 3 {
            self.ld_sp_hl()
        } else if bits_3210 == 3 && bits_54 == 3 {
            (CpuState { ime: false, ..self }.advance(1), 1u8)
        } else if bits_3210 == 11 && bits_54 == 3 {
            (CpuState { ime: true, ..self }.advance(1), 1u8)
        } else {
            (self, 0u8)
        }
    }

    /// Opcodes after the 0xCB prefix.
    pub open spec fn execute_cb(self) -> (CpuState, u8) {
        let (cb, s) = self.read((self.pc + 1) as u16);
        let cb_76 = (cb & 0xC0) >> 6;
        let cb_543 = (cb & 0x38) >> 3;
        let cb_210 = cb & 0x07;
        if cb_76 == 0 {
            s.cb_rotates_shifts(cb_543, cb_210)
        } else if cb_76 == 1 {
            s.cb_bit(cb_543, cb_210)
        } else if cb_76 == 2 {
            s.cb_res(cb_543, cb_210)
        } else {
            s.cb_set(cb_543, cb_210)
        }
    }
}

/// The bit fields of an opcode are in range.
pub proof fn lemma_fields(op: u8)
    ensures
        (op & 0xC0) >> 6 < 4,
        op & 0x0F < 16,
        (op & 0x30) >> 4 < 4,
        (op & 0x38) >> 3 < 8,
        op & 0x07 < 8,
{
    assert(((op & 0xC0) >> 6 < 4) && (op & 0x0F < 16) && ((op & 0x30) >> 4 < 4) && ((op & 0x38) >> 3 < 8) && (op & 0x07 < 8)) by (bit_vector);
}

impl View for Cpu {
    type V = CpuState;

    open spec fn view(&self) -> CpuState {
        CpuState {
            pc: self.program_counter,
            sp: self.stack_pointer,
            ime: self.ime,
            halted: self.halted,
            halt_bug: self.halt_bug,
            regs: self.work_registers@,
            mem: self.memory@,
        }
    }
}

impl Cpu {
    pub open spec fn inv(&self) -> bool {
        self.memory.inv()
    }

    /// A processor at address 0 with cleared registers, running the given
    /// cartridge image.
    pub fn new(romdata: Vec<u8>) -> (cpu: Self)
        requires
            rom_is_loadable(romdata@),
        ensures
            cpu.inv(),
            cpu.program_counter == 0,
            cpu.stack_pointer == 0,
            !cpu.ime,
            !cpu.halted,
            !cpu.halt_bug,
            cpu.work_registers@ == Seq::new(8, |i: int| 0u8),
            cpu.memory@ == Memory::new_state(romdata@),
    {
        let regs = [0u8; 8];
        assert(regs@ =~= Seq::new(8, |i: int| 0u8));
        Cpu {
            program_counter: 0,
            stack_pointer: 0,
            ime: false,
            halted: false,
            halt_bug: false,
            work_registers: regs,
            memory: Memory::new(romdata),
        }
    }

    /// Reads register pair `r16_idx` (3 reads the bytes F and A).
    pub fn get_r16(&self, r16_idx: u8) -> (value: u16)
        requires
            r16_idx < 4,
        ensures
            value == self@.r16(r16_idx as int),
    {
        let i = (r16_idx * 2) as usize;
        let high = self.work_registers[i] as u16;
        let low = self.work_registers[i + 1] as u16;
        proof {
            lemma_word_join(high, low);
        }
        (high << 8) | low
    }

    /// Writes register pair `r16_idx`.
    pub fn set_r16(&mut self, r16_idx: u8, val: u16)
        requires
            r16_idx < 4,
        ensures
            final(self)@ == old(self)@.set_r16(r16_idx as int, val),
    {
        let i = (r16_idx * 2) as usize;
        proof {
            lemma_word_split(val);
        }
        self.work_registers[i] = (val >> 8) as u8;
        self.work_registers[i + 1] = (val & 0xFF) as u8;
    }

    /// Reads the little-endian 16-bit operand after the opcode.
    fn read_imm16(&mut self) -> (value: u16)
        requires
            old(self).inv(),
            old(self).program_counter + 2 <= usize::MAX,
        ensures
            (value, final(self)@) == old(self)@.operand16(),
            final(self).inv(),
    {
        let lo = self.memory.read_byte((self.program_counter + 1) as u16) as u16;
        let hi = self.memory.read_byte((self.program_counter + 2) as u16) as u16;
        proof {
            lemma_word_join(hi, lo);
        }
        (hi << 8) | lo
    }

    fn get_af(&self) -> (value: u16)
        ensures
            value == self@.af(),
    {
        let high = self.work_registers[7] as u16;
        let low = self.work_registers[6] as u16;
        proof {
            lemma_word_join(high, low);
        }
        (high << 8) | low
    }

    fn set_af(&mut self, val: u16)
        ensures
            final(self)@ == old(self)@.set_af(val),
    {
        proof {
            lemma_word_split(val);
        }
        self.work_registers[7] = (val >> 8) as u8;
        self.work_registers[6] = (val & 0xF0) as u8;
    }

    fn check_condition(&self, bits_543: u8) -> (taken: bool)
        ensures
            taken == self@.condition(bits_543),
    {
        let f = self.work_registers[6];
        let sel = bits_543 & 0b011;
        if sel == 0b00 {
            f & 0b10000000 == 0
        } else if sel == 0b01 {
            f & 0b10000000 != 0
        } else if sel == 0b10 {
            f & 0b00010000 == 0
        } else {
            f & 0b00010000 != 0
        }
    }

    /// Sets the flags given as `true` in the flag register.
    fn set_flags(&mut self, z: bool, n: bool, h: bool, c: bool)
        ensures
            final(self)@ == old(self)@.set_reg(6, old(self)@.f() | flag_bits(z, n, h, c)),
    {
        let mask: u8 = (if z { 0b10000000u8 } else { 0u8 }) | (if n { 0b01000000u8 } else { 0u8 }) | (
        if h {
            0b00100000u8
        } else {
            0u8
        }) | (if c { 0b00010000u8 } else { 0u8 });
        self.work_registers[6] = self.work_registers[6] | mask;
    }

    /// Clears the flags given as `true` in the flag register.
    fn clear_flags(&mut self, z: bool, n: bool, h: bool, c: bool)
        ensures
            final(self)@ == old(self)@.set_reg(6, old(self)@.f() & !flag_bits(z, n, h, c)),
    {
        let mask: u8 = (if z { 0b10000000u8 } else { 0u8 }) | (if n { 0b01000000u8 } else { 0u8 }) | (
        if h {
            0b00100000u8
        } else {
            0u8
        }) | (if c { 0b00010000u8 } else { 0u8 });
        self.work_registers[6] = self.work_registers[6] & !mask;
    }
}

impl Cpu {
    /// Checks for pending interrupts before an instruction; returns the
    /// cycles spent serving one (0 when none was served).
    pub fn handle_interrupts(&mut self) -> (cycles: u8)
        requires
            old(self).inv(),
        ensures
            final(self)@ == old(self)@.handle_interrupts().0,
            cycles == old(self)@.handle_interrupts().1,
            final(self).inv(),
    {
        let requested = self.memory.read_byte(0xFF0F);
        let enabled = self.memory.read_byte(0xFFFF);
        let pending = requested & enabled;
        if pending != 0 {
            self.halted = false;
        }
        if !self.ime || pending == 0 {
            return 0;
        }
        proof {
            lemma_request_bits(pending);
        }
        let ghost start = self@;
        let ghost expected = old(self)@.handle_interrupts();
        assert(forall|k: u8| interrupt_index(pending) == Some(k) ==> expected == (start.serve_interrupt(k), 20u8));
        assert(interrupt_index(pending) is None ==> expected == (start, 0u8));
        let mut i: u8 = 0;
        while i <= 4
            invariant
                i <= 5,
                forall|k: u8| interrupt_index(pending) == Some(k) ==> expected == (start.serve_interrupt(k), 20u8),
                interrupt_index(pending) is None ==> expected == (start, 0u8),
                expected == old(self)@.handle_interrupts(),
                forall|j: u8| j < i ==> pending & (1u8 << j) == 0,
                self@ == start,
                self.inv(),
                (1u8 << 0u8) == 0x01 && (1u8 << 1u8) == 0x02 && (1u8 << 2u8) == 0x04 && (1u8 << 3u8)
                    == 0x08 && (1u8 << 4u8) == 0x10,
            decreases 5 - i,
        {
            if pending & (1u8 << i) != 0 {
                assert(interrupt_index(pending) == Some(i)) by {
                    if i >= 1 {
                        assert(pending & (1u8 << 0u8) == 0);
                    }
                    if i >= 2 {
                        assert(pending & (1u8 << 1u8) == 0);
                    }
                    if i >= 3 {
                        assert(pending & (1u8 << 2u8) == 0);
                    }
                    if i >= 4 {
                        assert(pending & (1u8 << 3u8) == 0);
                    }
                }
                self.ime = false;
                let flags = self.memory.read_byte(0xFF0F);
                self.memory.write_byte(0xFF0F, flags & !(1u8 << i));
                let return_addr = #[verifier::truncate] (self.program_counter as u16);
                self.push_word(return_addr);
                self.program_counter = if i == 0 {
                    0x40
                } else if i == 1 {
                    0x48
                } else if i == 2 {
                    0x50
                } else if i == 3 {
                    0x58
                } else {
                    0x60
                };
                assert(self@ == start.serve_interrupt(i));
                return 20;
            }
            i += 1;
        }
        assert(pending & (1u8 << 4u8) == 0);
        0
    }

    /// Executes one instruction and returns the machine cycles it took.
    pub fn step(&mut self) -> (cycles: u8)
        requires
            old(self).inv(),
            CpuState::pc_fits(old(self)@.fetch_pc()),
        ensures
            final(self)@ == old(self)@.step().0,
            cycles == old(self)@.step().1,
            final(self).inv(),
    {
        if self.halt_bug {
            self.program_counter = self.program_counter.wrapping_sub(1);
            self.halt_bug = false;
        }
        let at = self.program_counter as u16;
        let opcode = self.memory.read_byte(at);
        let bits_76 = (self.memory.read_byte(at) & 0xC0) >> 6;
        let bits_3210 = self.memory.read_byte(at) & 0b1111;
        let bits_54 = (self.memory.read_byte(at) & 0b110000) >> 4;
        let bits_543 = (self.memory.read_byte(at) & 0b111000) >> 3;
        let bits_210 = self.memory.read_byte(at) & 0b111;
        proof {
            assert forall|r: u8| #![auto] (r & 0xC0) >> 6 < 4 && (r & 0x30) >> 4 < 4 && (r & 0x38) >> 3
                < 8 && r & 0x07 < 8 && r & 0x0F < 16 by {
                lemma_fields(r);
            }
        }
        if opcode == 0xCB {
            return self.exec_cb();
        }
        if bits_76 == 0b00 {
            self.exec_block0(bits_3210, bits_54, bits_543)
        } else if bits_76 == 0b01 {
            if opcode == 0b01110110 {
                self.halted()
            } else {
                self.ld_r8_r8(bits_543, bits_210)
            }
        } else if bits_76 == 0b10 {
            if bits_543 == 0b000 {
                self.add_a_r8(bits_210)
            } else if bits_543 == 0b001 {
                self.adc_a_r8(bits_210)
            } else if bits_543 == 0b010 {
                self.sub_a_r8(bits_210)
            } else if bits_543 == 0b011 {
                self.sbc_a_r8(bits_210)
            } else if bits_543 == 0b100 {
                self.and_a_r8(bits_210)
            } else if bits_543 == 0b101 {
                self.xor_a_r8(bits_210)
            } else if bits_543 == 0b110 {
                self.or_a_r8(bits_210)
            } else {
                self.cp_r8(bits_210)
            }
        } else {
            self.exec_block3(bits_3210, bits_54, bits_543)
        }
    }

    /// Opcodes 0x00..=0x3F.
    fn exec_block0(&mut self, bits_3210: u8, bits_54: u8, bits_543: u8) -> (cycles: u8)
        requires
            old(self).inv(),
            CpuState::pc_fits(old(self).program_counter),
            bits_3210 < 16,
            bits_54 < 4,
            bits_543 < 8,
        ensures
            final(self)@ == old(self)@.execute_block0(bits_3210, bits_54, bits_543).0,
            cycles == old(self)@.execute_block0(bits_3210, bits_54, bits_543).1,
            final(self).inv(),
    {
        if bits_3210 == 0b0000 {
            if bits_54 == 0b00 {
                // NOP
                self.program_counter = self.program_counter.wrapping_add(1);
                1
            } else if bits_54 == 0b01 {
                // STOP takes two bytes; the second is ignored.
                self.program_counter = self.program_counter.wrapping_add(2);
                1
            } else {
                self.jr_cond_imm8(bits_543)
            }
        } else if bits_3210 == 0b0001 {
            self.ld_r16_imm16(bits_54)
        } else if bits_3210 == 0b0010 {
            self.ld_r16mem_a(bits_54)
        } else if bits_3210 == 0b1010 {
            self.ld_a_r16mem(bits_54)
        } else if bits_3210 == 0b0011 {
            self.inc_r16(bits_54)
        } else if bits_3210 == 0b1011 {
            self.dec_r16(bits_54)
        } else if bits_3210 == 0b1001 {
            self.add_hl_r16(bits_54)
        } else if bits_3210 == 0b0100 || bits_3210 == 0b1100 {
            self.inc_r8(bits_543)
        } else if bits_3210 == 0b0101 || bits_3210 == 0b1101 {
            self.dec_r8(bits_543)
        } else if bits_3210 == 0b0110 || bits_3210 == 0b1110 {
            self.ld_r8_imm8(bits_543)
        } else if bits_3210 == 0b0111 || bits_3210 == 0b1111 {
            if bits_543 == 0b000 {
                self.rlca()
            } else if bits_543 == 0b001 {
                self.rrca()
            } else if bits_543 == 0b010 {
                self.rla()
            } else if bits_543 == 0b011 {
                self.rra()
            } else if bits_543 == 0b100 {
                self.daa()
            } else if bits_543 == 0b101 {
                self.cpl()
            } else if bits_543 == 0b110 {
                self.scf()
            } else {
                self.ccf()
            }
        } else {
            if bits_54 == 0b00 {
                self.ld_imm16_sp()
            } else if bits_54 == 0b01 {
                self.jr_imm8()
            } else {
                self.jr_cond_imm8(bits_543)
            }
        }
    }

    /// Opcodes 0xC0..=0xFF.
    fn exec_block3(&mut self, bits_3210: u8, bits_54: u8, bits_543: u8) -> (cycles: u8)
        requires
            old(self).inv(),
            CpuState::pc_fits(old(self).program_counter),
            bits_3210 < 16,
            bits_54 < 4,
            bits_543 < 8,
        ensures
            final(self)@ == old(self)@.execute_block3(bits_3210, bits_54, bits_543).0,
            cycles == old(self)@.execute_block3(bits_3210, bits_54, bits_543).1,
            final(self).inv(),
    {
        if bits_3210 == 0b0110 || bits_3210 == 0b1110 {
            self.alu_a_imm8(bits_543)
        } else if bits_3210 == 0b0001 {
            self.pop_r16(bits_54)
        } else if bits_3210 == 0b0101 {
            self.push_r16(bits_54)
        } else if (bits_3210 == 0b0000 || bits_3210 == 0b1000) && bits_54 <= 0b01 {
            self.ret_cond(bits_543)
        } else if bits_3210 == 0b1001 && bits_54 == 0b00 {
            self.ret()
        } else if bits_3210 == 0b1001 && bits_54 == 0b01 {
            self.reti()
        } else if (bits_3210 == 0b0100 || bits_3210 == 0b1100) && bits_54 <= 0b01 {
            self.call_cond_imm16(bits_543)
        } else if bits_3210 == 0b1101 && bits_54 == 0b00 {
            self.call_imm16()
        } else if (bits_3210 == 0b0010 || bits_3210 == 0b1010) && bits_54 <= 0b01 {
            self.jp_cond_imm16(bits_543)
        } else if bits_3210 == 0b0011 && bits_54 == 0b00 {
            self.jp_imm16()
        } else if bits_3210 == 0b1001 && bits_54 == 0b10 {
            self.jp_hl()
        } else if bits_3210 == 0b0111 || bits_3210 == 0b1111 {
            self.rst(bits_543)
        } else if bits_3210 == 0b0000 && bits_54 == 0b10 {
            self.ld_highpage_n_a()
        } else if bits_3210 == 0b0000 && bits_54 == 0b11 {
            self.ld_a_highpage_n()
        } else if bits_3210 == 0b0010 && bits_54 == 0b10 {
            self.ld_highpage_c_a()
        } else if bits_3210 == 0b0010 && bits_54 == 0b11 {
            self.ld_a_highpage_c()
        } else if bits_3210 == 0b1010 && bits_54 == 0b10 {
            self.ld_imm16_a()
        } else if bits_3210 == 0b1010 && bits_54 == 0b11 {
            self.ld_a_imm16()
        } else if bits_3210 == 0b1000 && bits_54 == 0b10 {
            self.add_sp_imm8()
        } else if bits_3210 == 0b1000 && bits_54 == 0b11 {
            self.ld_hl_sp_imm8()
        } else if bits_3210 == 0b1001 && bits_54 == 0b11 {
            self.ld_sp_hl()
        } else if bits_3210 == 0b0011 && bits_54 == 0b11 {
            // DI
            self.ime = false;
            self.program_counter = self.program_counter.wrapping_add(1);
            1
        } else if bits_3210 == 0b1011 && bits_54 == 0b11 {
            // EI
            self.ime = true;
            self.program_counter = self.program_counter.wrapping_add(1);
            1
        } else {
            // Not an opcode of the processor.
            0
        }
    }

    /// The instructions after the 0xCB prefix.
    fn exec_cb(&mut self) -> (cycles: u8)
        requires
            old(self).inv(),
            CpuState::pc_fits(old(self).program_counter),
        ensures
            final(self)@ == old(self)@.execute_cb().0,
            cycles == old(self)@.execute_cb().1,
            final(self).inv(),
    {
        let cb_opcode = self.memory.read_byte((self.program_counter + 1) as u16);
        let cb_bits_76 = (cb_opcode & 0xC0) >> 6;
        let cb_bits_543 = (cb_opcode & 0b111000) >> 3;
        let cb_bits_210 = cb_opcode & 0b111;
        proof {
            lemma_fields(cb_opcode);
        }
        if cb_bits_76 == 0b00 {
            self.cb_rotates_shifts(cb_bits_543, cb_bits_210)
        } else if cb_bits_76 == 0b01 {
            self.cb_bit(cb_bits_543, cb_bits_210)
        } else if cb_bits_76 == 0b10 {
            self.cb_res(cb_bits_543, cb_bits_210)
        } else {
            self.cb_set(cb_bits_543, cb_bits_210)
        }
    }
}


/// The flag register keeps its low nibble through every flag update, and a
/// pop into AF clears it.
proof fn lemma_flag_nibble_facts()
    ensures
        forall|f: u8, z: bool, n: bool, h: bool, c: bool| #[trigger] flags_with(f, z, n, h, c) & 0x0F == f & 0x0F,
        forall|x: u8| #[trigger] (x & 0xF0) & 0x0F == 0,
{
    assert forall|f: u8, z: bool, n: bool, h: bool, c: bool| #[trigger] flags_with(f, z, n, h, c) & 0x0F == f & 0x0F by {
        lemma_flags_with_bits(f, z, n, h, c);
    }
    assert forall|x: u8| #[trigger] (x & 0xF0) & 0x0F == 0 by {
        assert((x & 0xF0) & 0x0F == 0) by (bit_vector);
    }
}

/// Whether the low nibble of F is clear.
pub open spec fn flags_low_clear(s: CpuState) -> bool {
    s.regs.len() == 8 && s.f() & 0x0F == 0
}

/// The instructions of block 0 keep the low nibble of F clear.
#[verifier::spinoff_prover]
#[verifier::rlimit(40)]
proof fn lemma_block0_flags(s: CpuState, bits_3210: u8, bits_54: u8, bits_543: u8)
    requires
        flags_low_clear(s),
        bits_3210 < 16,
        bits_54 < 4,
        bits_543 < 8,
    ensures
        flags_low_clear(s.execute_block0(bits_3210, bits_54, bits_543).0),
{
    lemma_flag_nibble_facts();
}

/// The instructions of block 3 keep the low nibble of F clear.
#[verifier::spinoff_prover]
#[verifier::rlimit(40)]
proof fn lemma_block3_flags(s: CpuState, bits_3210: u8, bits_54: u8, bits_543: u8)
    requires
        flags_low_clear(s),
        bits_3210 < 16,
        bits_54 < 4,
        bits_543 < 8,
    ensures
        flags_low_clear(s.execute_block3(bits_3210, bits_54, bits_543).0),
{
    lemma_flag_nibble_facts();
}

/// The instructions behind the 0xCB prefix keep the low nibble of F clear.
#[verifier::spinoff_prover]
#[verifier::rlimit(40)]
proof fn lemma_cb_flags(s: CpuState)
    requires
        flags_low_clear(s),
    ensures
        flags_low_clear(s.execute_cb().0),
{
    lemma_flag_nibble_facts();
    let (cb, s1) = s.read((s.pc + 1) as u16);
    lemma_fields(cb);
}

/// The low nibble of F always reads 0: no instruction and no interrupt sets
/// any of its bits.
#[verifier::spinoff_prover]
#[verifier::rlimit(40)]
pub proof fn law_flag_low_nibble_stays_clear(s: CpuState)
    requires
        flags_low_clear(s),
    ensures
        flags_low_clear(s.step().0),
        flags_low_clear(s.handle_interrupts().0),
{
    lemma_flag_nibble_facts();
    let s0 = if s.halt_bug {
        CpuState { pc: s.pc.wrapping_sub(1), halt_bug: false, ..s }
    } else {
        s
    };
    let at = s0.pc as u16;
    let (opcode, s1) = s0.read(at);
    let (r2, s2) = s1.read(at);
    let (r3, s3) = s2.read(at);
    let (r4, s4) = s3.read(at);
    let (r5, s5) = s4.read(at);
    let (r6, s6) = s5.read(at);
    lemma_fields(r2);
    lemma_fields(r3);
    lemma_fields(r4);
    lemma_fields(r5);
    lemma_fields(r6);
    let bits_76 = (r2 & 0xC0) >> 6;
    let bits_3210 = r3 & 0x0F;
    let bits_54 = (r4 & 0x30) >> 4;
    let bits_543 = (r5 & 0x38) >> 3;
    let bits_210 = r6 & 0x07;
    assert(flags_low_clear(s6));
    if opcode == 0xCB {
        lemma_cb_flags(s6);
    } else if bits_76 == 0 {
        lemma_block0_flags(s6, bits_3210, bits_54, bits_543);
    } else if bits_76 == 3 {
        lemma_block3_flags(s6, bits_3210, bits_54, bits_543);
    }
}

} // verus!
