//! Loads between registers, memory and immediates.

use super::{lemma_word_split, Cpu, CpuState, R16_BC, R16_DE, R16_HL, R16_SP};
use vstd::prelude::*;

verus! {

/// An address in the high page 0xFF00..=0xFFFF from its low byte.
proof fn lemma_high_page(n: usize)
    by (bit_vector)
    requires
        n < 256,
    ensures
        0xFF00 | n == 0xFF00 + n,
{
}

impl CpuState {
    /// `LDH [0xFF00+n], A`: 2 bytes, 3 cycles.
    pub open spec fn ld_highpage_n_a(self) -> (CpuState, u8) {
        let (n, s) = self.operand(1);
        (s.write((0xFF00 + n) as u16, self.a()).advance(2), 3u8)
    }

    /// `LDH A, [0xFF00+n]`: 2 bytes, 3 cycles.
    pub open spec fn ld_a_highpage_n(self) -> (CpuState, u8) {
        let (n, s) = self.operand(1);
        let (v, s2) = s.read((0xFF00 + n) as u16);
        (s2.set_reg(7, v).advance(2), 3u8)
    }

    /// `LD [0xFF00+C], A`: 1 byte, 2 cycles.
    pub open spec fn ld_highpage_c_a(self) -> (CpuState, u8) {
        (self.write((0xFF00 + self.regs[1]) as u16, self.a()).advance(1), 2u8)
    }

    /// `LD A, [0xFF00+C]`: 1 byte, 2 cycles.
    pub open spec fn ld_a_highpage_c(self) -> (CpuState, u8) {
        let (v, s) = self.read((0xFF00 + self.regs[1]) as u16);
        (s.set_reg(7, v).advance(1), 2u8)
    }

    /// `LD [imm16], A`: 3 bytes, 4 cycles.
    pub open spec fn ld_imm16_a(self) -> (CpuState, u8) {
        let (addr, s) = self.operand16();
        (s.write(addr, self.a()).advance(3), 4u8)
    }

    /// `LD A, [imm16]`: 3 bytes, 4 cycles.
    pub open spec fn ld_a_imm16(self) -> (CpuState, u8) {
        let (addr, s) = self.operand16();
        let (v, s2) = s.read(addr);
        (s2.set_reg(7, v).advance(3), 4u8)
    }

    /// The address of a `[r16mem]` operand: BC, DE, HL then incremented, or
    /// HL then decremented.
    pub open spec fn r16mem_address(self, bits_54: u8) -> (u16, CpuState) {
        let hl = self.hl();
        if bits_54 == 0 {
            (self.r16(0), self)
        } else if bits_54 == 1 {
            (self.r16(1), self)
        } else if bits_54 == 2 {
            (hl, self.set_r16(2, hl.wrapping_add(1)))
        } else {
            (hl, self.set_r16(2, hl.wrapping_sub(1)))
        }
    }

    /// `LD A, [r16mem]`: 1 byte, 2 cycles.
    pub open spec fn ld_a_r16mem(self, bits_54: u8) -> (CpuState, u8) {
        let (addr, s) = self.r16mem_address(bits_54);
        let (v, s2) = s.read(addr);
        (s2.set_reg(7, v).advance(1), 2u8)
    }

    /// `LD [r16mem], A`: 1 byte, 2 cycles.
    pub open spec fn ld_r16mem_a(self, bits_54: u8) -> (CpuState, u8) {
        let (addr, s) = self.r16mem_address(bits_54);
        (s.write(addr, self.a()).advance(1), 2u8)
    }

    /// `LD r16, imm16` (BC, DE, HL or SP): 3 bytes, 3 cycles.
    pub open spec fn ld_r16_imm16(self, bits_54: u8) -> (CpuState, u8) {
        let (v, s) = self.operand16();
        (s.set_arith_pair(bits_54, v).advance(3), 3u8)
    }

    /// `LD [imm16], SP`: the low byte at the address, the high byte after it.
    /// 3 bytes, 5 cycles.
    pub open spec fn ld_imm16_sp(self) -> (CpuState, u8) {
        let (addr, s) = self.operand16();
        let s1 = s.write(addr, (self.sp % 256) as u8);
        let s2 = s1.write(((addr + 1) % 65536) as u16, (self.sp / 256) as u8);
        (s2.advance(3), 5u8)
    }

    /// `LD r8, imm8`: 2 bytes; 3 cycles to the byte at HL, else 2.
    pub open spec fn ld_r8_imm8(self, bits_543: u8) -> (CpuState, u8) {
        let (v, s) = self.operand(1);
        if bits_543 == 6 {
            (s.write(s.hl(), v).advance(2), 3u8)
        } else {
            (s.set_reg(bits_543 as int, v).advance(2), 2u8)
        }
    }

    /// `LD r8, r8`: 1 byte; 2 cycles when the byte at HL is the destination
    /// or the source, else 1.
    pub open spec fn ld_r8_r8(self, bits_543: u8, bits_210: u8) -> (CpuState, u8) {
        if bits_543 == 6 {
            (self.write(self.hl(), self.regs[bits_210 as int]).advance(1), 2u8)
        } else if bits_210 == 6 {
            let (v, s) = self.read(self.hl());
            (s.set_reg(bits_543 as int, v).advance(1), 2u8)
        } else {
            (self.set_reg(bits_543 as int, self.regs[bits_210 as int]).advance(1), 1u8)
        }
    }
}

impl Cpu {
    /// `LDH [0xFF00+n], A`.
    pub(crate) fn ld_highpage_n_a(&mut self) -> (cycles: u8)
        requires
            old(self).inv(),
            old(self).program_counter < usize::MAX,
        ensures
            final(self)@ == old(self)@.ld_highpage_n_a().0,
            cycles == old(self)@.ld_highpage_n_a().1,
            final(self).inv(),
    {
        let n = self.memory.read_byte((self.program_counter + 1) as u16) as usize;
        let addr = 0xFF00 | n;
        proof {
            lemma_high_page(n);
        }
        let a = self.work_registers[7];
        self.memory.write_byte(addr as u16, a);
        self.program_counter = self.program_counter.wrapping_add(2);
        3
    }

    /// `LDH A, [0xFF00+n]`.
    pub(crate) fn ld_a_highpage_n(&mut self) -> (cycles: u8)
        requires
            old(self).inv(),
            old(self).program_counter < usize::MAX,
        ensures
            final(self)@ == old(self)@.ld_a_highpage_n().0,
            cycles == old(self)@.ld_a_highpage_n().1,
            final(self).inv(),
    {
        let n = self.memory.read_byte((self.program_counter + 1) as u16) as usize;
        let addr = 0xFF00 | n;
        proof {
            lemma_high_page(n);
        }
        self.work_registers[7] = self.memory.read_byte(addr as u16);
        self.program_counter = self.program_counter.wrapping_add(2);
        3
    }

    /// `LD [0xFF00+C], A`.
    pub(crate) fn ld_highpage_c_a(&mut self) -> (cycles: u8)
        requires
            old(self).inv(),
        ensures
            final(self)@ == old(self)@.ld_highpage_c_a().0,
            cycles == old(self)@.ld_highpage_c_a().1,
            final(self).inv(),
    {
        let c = self.work_registers[1] as usize;
        let addr = 0xFF00 | c;
        proof {
            lemma_high_page(c);
        }
        let a = self.work_registers[7];
        self.memory.write_byte(addr as u16, a);
        self.program_counter = self.program_counter.wrapping_add(1);
        2
    }

    /// `LD A, [0xFF00+C]`.
    pub(crate) fn ld_a_highpage_c(&mut self) -> (cycles: u8)
        requires
            old(self).inv(),
        ensures
            final(self)@ == old(self)@.ld_a_highpage_c().0,
            cycles == old(self)@.ld_a_highpage_c().1,
            final(self).inv(),
    {
        let c = self.work_registers[1] as usize;
        let addr = 0xFF00 | c;
        proof {
            lemma_high_page(c);
        }
        self.work_registers[7] = self.memory.read_byte(addr as u16);
        self.program_counter = self.program_counter.wrapping_add(1);
        2
    }

    /// `LD [imm16], A`.
    pub(crate) fn ld_imm16_a(&mut self) -> (cycles: u8)
        requires
            old(self).inv(),
            old(self).program_counter + 2 <= usize::MAX,
        ensures
            final(self)@ == old(self)@.ld_imm16_a().0,
            cycles == old(self)@.ld_imm16_a().1,
            final(self).inv(),
    {
        let addr = self.read_imm16();
        let a = self.work_registers[7];
        self.memory.write_byte(addr, a);
        self.program_counter = self.program_counter.wrapping_add(3);
        4
    }

    /// `LD A, [imm16]`.
    pub(crate) fn ld_a_imm16(&mut self) -> (cycles: u8)
        requires
            old(self).inv(),
            old(self).program_counter + 2 <= usize::MAX,
        ensures
            final(self)@ == old(self)@.ld_a_imm16().0,
            cycles == old(self)@.ld_a_imm16().1,
            final(self).inv(),
    {
        let addr = self.read_imm16();
        self.work_registers[7] = self.memory.read_byte(addr);
        self.program_counter = self.program_counter.wrapping_add(3);
        4
    }

    /// The address of a `[r16mem]` operand; HL+ and HL- adjust HL after
    /// taking the address.
    fn r16mem_address(&mut self, bits_54: u8) -> (addr: u16)
        requires
            bits_54 < 4,
        ensures
            (addr, final(self)@) == old(self)@.r16mem_address(bits_54),
            final(self).inv() == old(self).inv(),
    {
        if bits_54 == 0b00 {
            self.get_r16(R16_BC)
        } else if bits_54 == 0b01 {
            self.get_r16(R16_DE)
        } else if bits_54 == 0b10 {
            let addr = self.get_r16(R16_HL);
            self.set_r16(R16_HL, addr.wrapping_add(1));
            addr
        } else {
            let addr = self.get_r16(R16_HL);
            self.set_r16(R16_HL, addr.wrapping_sub(1));
            addr
        }
    }

    /// `LD A, [r16mem]`.
    pub(crate) fn ld_a_r16mem(&mut self, bits_54: u8) -> (cycles: u8)
        requires
            old(self).inv(),
            bits_54 < 4,
        ensures
            final(self)@ == old(self)@.ld_a_r16mem(bits_54).0,
            cycles == old(self)@.ld_a_r16mem(bits_54).1,
            final(self).inv(),
    {
        let addr = self.r16mem_address(bits_54);
        self.work_registers[7] = self.memory.read_byte(addr);
        self.program_counter = self.program_counter.wrapping_add(1);
        2
    }

    /// `LD [r16mem], A`.
    pub(crate) fn ld_r16mem_a(&mut self, bits_54: u8) -> (cycles: u8)
        requires
            old(self).inv(),
            bits_54 < 4,
        ensures
            final(self)@ == old(self)@.ld_r16mem_a(bits_54).0,
            cycles == old(self)@.ld_r16mem_a(bits_54).1,
            final(self).inv(),
    {
        let a = self.work_registers[7];
        let addr = self.r16mem_address(bits_54);
        self.memory.write_byte(addr, a);
        self.program_counter = self.program_counter.wrapping_add(1);
        2
    }

    /// `LD r16, imm16`.
    pub(crate) fn ld_r16_imm16(&mut self, bits_54: u8) -> (cycles: u8)
        requires
            old(self).inv(),
            bits_54 < 4,
            old(self).program_counter + 2 <= usize::MAX,
        ensures
            final(self)@ == old(self)@.ld_r16_imm16(bits_54).0,
            cycles == old(self)@.ld_r16_imm16(bits_54).1,
            final(self).inv(),
    {
        let val = self.read_imm16();
        if bits_54 == R16_SP {
            self.stack_pointer = val;
        } else {
            self.set_r16(bits_54, val);
        }
        self.program_counter = self.program_counter.wrapping_add(3);
        3
    }

    /// `LD [imm16], SP`.
    pub(crate) fn ld_imm16_sp(&mut self) -> (cycles: u8)
        requires
            old(self).inv(),
            old(self).program_counter + 2 <= usize::MAX,
        ensures
            final(self)@ == old(self)@.ld_imm16_sp().0,
            cycles == old(self)@.ld_imm16_sp().1,
            final(self).inv(),
    {
        let addr = self.read_imm16();
        let sp = self.stack_pointer;
        proof {
            lemma_word_split(sp);
        }
        let low = #[verifier::truncate] ((sp & 0xFF) as u8);
        let high = #[verifier::truncate] ((sp >> 8) as u8);
        let next = #[verifier::truncate] ((addr as usize + 1) as u16);
        assert(next == addr.wrapping_add(1)) by (bit_vector)
            requires
                next == ((addr as usize + 1) as u16),
        ;
        self.memory.write_byte(addr, low);
        self.memory.write_byte(next, high);
        self.program_counter = self.program_counter.wrapping_add(3);
        5
    }

    /// `LD r8, imm8`.
    pub(crate) fn ld_r8_imm8(&mut self, bits_543: u8) -> (cycles: u8)
        requires
            old(self).inv(),
            bits_543 < 8,
            old(self).program_counter < usize::MAX,
        ensures
            final(self)@ == old(self)@.ld_r8_imm8(bits_543).0,
            cycles == old(self)@.ld_r8_imm8(bits_543).1,
            final(self).inv(),
    {
        let imm8 = self.memory.read_byte((self.program_counter + 1) as u16);
        if bits_543 == 0b110 {
            let address = self.get_r16(R16_HL);
            self.memory.write_byte(address, imm8);
            self.program_counter = self.program_counter.wrapping_add(2);
            return 3;
        }
        self.work_registers[bits_543 as usize] = imm8;
        self.program_counter = self.program_counter.wrapping_add(2);
        2
    }

    /// `LD r8, r8`.
    pub(crate) fn ld_r8_r8(&mut self, bits_543: u8, bits_210: u8) -> (cycles: u8)
        requires
            old(self).inv(),
            bits_543 < 8,
            bits_210 < 8,
        ensures
            final(self)@ == old(self)@.ld_r8_r8(bits_543, bits_210).0,
            cycles == old(self)@.ld_r8_r8(bits_543, bits_210).1,
            final(self).inv(),
    {
        if bits_543 == 0b110 {
            let addr = self.get_r16(R16_HL);
            let v = self.work_registers[bits_210 as usize];
            self.memory.write_byte(addr, v);
            self.program_counter = self.program_counter.wrapping_add(1);
            2
        } else if bits_210 == 0b110 {
            let addr = self.get_r16(R16_HL);
            self.work_registers[bits_543 as usize] = self.memory.read_byte(addr);
            self.program_counter = self.program_counter.wrapping_add(1);
            2
        } else {
            self.work_registers[bits_543 as usize] = self.work_registers[bits_210 as usize];
            self.program_counter = self.program_counter.wrapping_add(1);
            1
        }
    }
}

} // verus!
