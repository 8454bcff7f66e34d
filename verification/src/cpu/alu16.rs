//! 16-bit arithmetic, the stack, and 8-bit increments and decrements.

use super::{
    lemma_low_nibble, lemma_set_then_clear, lemma_word_join, lemma_word_split, word, Cpu, CpuState,
    R16_HL, R16_SP,
};
use vstd::prelude::*;

verus! {

/// The signed value of an 8-bit relative offset.
pub open spec fn signed(b: u8) -> int {
    if b < 128 {
        b as int
    } else {
        b - 256
    }
}

/// Sign extension keeps the low bits of an offset.
pub proof fn lemma_sign_extend(b: u8)
    ensures
        ((b as i8) as u16) & 0x0F == b % 16,
        ((b as i8) as u16) & 0xFF == b as u16,
        ((b as i8) as i32) == signed(b),
{
    assert(((b as i8) as u16) & 0x0F == (b as u16) & 0x0F && ((b as i8) as u16) & 0xFF == b as u16
        && (b as u16) & 0x0F == b % 16 && (b < 128 ==> ((b as i8) as i32) == b as i32) && (b >= 128
        ==> ((b as i8) as i32) == (b as i32) - 256)) by (bit_vector);
}

/// The sum of a 16-bit value and a relative offset wraps around 16 bits.
pub proof fn lemma_add_offset_u16(x: u16, b: u8)
    ensures
        (((x as i32) + ((b as i8) as i32)) as u16) == ((x + signed(b)) % 65536) as u16,
{
    assert((((x as i32) + ((b as i8) as i32)) as u16) == x.wrapping_add((b as i8) as u16) && ((b
        as i8) as u16) == (if b < 128 { b as u16 } else { ((b as u16) + 0xFF00) as u16 }))
        by (bit_vector);
}

impl CpuState {
    /// The 16-bit value named by a `push`/`pop` field: BC, DE, HL or AF.
    pub open spec fn stack_pair(self, bits_54: u8) -> u16 {
        if bits_54 == 3 {
            self.af()
        } else {
            self.r16(bits_54 as int)
        }
    }

    /// `PUSH r16`: 1 byte, 4 cycles.
    pub open spec fn push_r16(self, bits_54: u8) -> (CpuState, u8) {
        (self.push(self.stack_pair(bits_54)).advance(1), 4u8)
    }

    /// `POP r16`: 1 byte, 3 cycles.
    pub open spec fn pop_r16(self, bits_54: u8) -> (CpuState, u8) {
        let (v, s) = self.pop();
        let s2 = if bits_54 == 3 {
            s.set_af(v)
        } else {
            s.set_r16(bits_54 as int, v)
        };
        (s2.advance(1), 3u8)
    }

    /// `ADD SP, e8`: the flags H and C come from adding the offset byte to
    /// the low byte of SP, Z and N are cleared.  2 bytes, 4 cycles.
    pub open spec fn add_sp_imm8(self) -> (CpuState, u8) {
        let (b, s) = self.operand(1);
        let sp = s.sp;
        let s2 = CpuState { sp: ((sp + signed(b)) % 65536) as u16, ..s };
        (s2.with_flags(false, false, sp % 16 + b % 16 > 15, sp % 256 + b > 255).advance(2), 4u8)
    }

    /// `LD HL, SP+e8`: like `ADD SP, e8` but into HL.  2 bytes, 3 cycles.
    pub open spec fn ld_hl_sp_imm8(self) -> (CpuState, u8) {
        let (b, s) = self.operand(1);
        let sp = s.sp;
        let s2 = s.set_r16(2, ((sp + signed(b)) % 65536) as u16);
        (s2.with_flags(false, false, sp % 16 + b % 16 > 15, sp % 256 + b > 255).advance(2), 3u8)
    }

    /// `LD SP, HL`: 1 byte, 2 cycles.
    pub open spec fn ld_sp_hl(self) -> (CpuState, u8) {
        (CpuState { sp: self.hl(), ..self }.advance(1), 2u8)
    }

    /// The 16-bit value named by an arithmetic field: BC, DE, HL or SP.
    pub open spec fn arith_pair(self, bits_54: u8) -> u16 {
        if bits_54 == 3 {
            self.sp
        } else {
            self.r16(bits_54 as int)
        }
    }

    pub open spec fn set_arith_pair(self, bits_54: u8, v: u16) -> CpuState {
        if bits_54 == 3 {
            CpuState { sp: v, ..self }
        } else {
            self.set_r16(bits_54 as int, v)
        }
    }

    /// `ADD HL, r16`: H is the carry out of bit 11, C out of bit 15, Z kept.
    /// 1 byte, 2 cycles.
    pub open spec fn add_hl_r16(self, bits_54: u8) -> (CpuState, u8) {
        let hl = self.hl();
        let rr = self.arith_pair(bits_54);
        let s = self.set_r16(2, ((hl + rr) % 65536) as u16);
        (s.with_flags(self.flag_z(), false, hl % 4096 + rr % 4096 > 4095, hl + rr > 65535).advance(
            1,
        ), 2u8)
    }

    /// `INC r16`: no flags.  1 byte, 2 cycles.
    pub open spec fn inc_r16(self, bits_54: u8) -> (CpuState, u8) {
        (self.set_arith_pair(bits_54, self.arith_pair(bits_54).wrapping_add(1)).advance(1), 2u8)
    }

    /// `DEC r16`: no flags.  1 byte, 2 cycles.
    pub open spec fn dec_r16(self, bits_54: u8) -> (CpuState, u8) {
        (self.set_arith_pair(bits_54, self.arith_pair(bits_54).wrapping_sub(1)).advance(1), 2u8)
    }

    /// Stores the result of an 8-bit read-modify-write to a register or, for
    /// field 6, to the byte at HL.
    pub open spec fn store_r8(self, r: u8, v: u8) -> CpuState {
        if r == 6 {
            self.write(self.hl(), v)
        } else {
            self.set_reg(r as int, v)
        }
    }

    /// `INC r8`: H is the carry out of bit 3, C is kept.  1 byte; 3 cycles on
    /// the byte at HL, else 1.
    pub open spec fn inc_r8(self, r: u8) -> (CpuState, u8) {
        let (old, s) = self.r8_operand(r);
        let res = ((old + 1) % 256) as u8;
        let s2 = s.store_r8(r, res);
        (s2.with_flags(res == 0, false, old % 16 == 15, s2.flag_c()).advance(1), if r == 6 {
            3u8
        } else {
            1u8
        })
    }

    /// `DEC r8`: H is the borrow from bit 4, C is kept.  1 byte; 3 cycles on
    /// the byte at HL, else 1.
    pub open spec fn dec_r8(self, r: u8) -> (CpuState, u8) {
        let (old, s) = self.r8_operand(r);
        let res = ((old - 1) % 256) as u8;
        let s2 = s.store_r8(r, res);
        (s2.with_flags(res == 0, true, old % 16 == 0, s2.flag_c()).advance(1), if r == 6 {
            3u8
        } else {
            1u8
        })
    }
}

impl Cpu {
    /// Pushes a 16-bit value, high byte first.
    pub(crate) fn push_word(&mut self, val: u16)
        requires
            old(self).inv(),
        ensures
            final(self)@ == old(self)@.push(val),
            final(self).inv(),
    {
        proof {
            lemma_word_split(val);
        }
        let hi = (val >> 8) as u8;
        let lo = (val & 0xFF) as u8;
        self.stack_pointer = self.stack_pointer.wrapping_sub(1);
        self.memory.write_byte(self.stack_pointer, hi);
        self.stack_pointer = self.stack_pointer.wrapping_sub(1);
        self.memory.write_byte(self.stack_pointer, lo);
    }

    /// Pops a 16-bit value, low byte first.
    pub(crate) fn pop_word(&mut self) -> (val: u16)
        requires
            old(self).inv(),
        ensures
            (val, final(self)@) == old(self)@.pop(),
            final(self).inv(),
    {
        let lo = self.memory.read_byte(self.stack_pointer) as u16;
        self.stack_pointer = self.stack_pointer.wrapping_add(1);
        let hi = self.memory.read_byte(self.stack_pointer) as u16;
        self.stack_pointer = self.stack_pointer.wrapping_add(1);
        proof {
            lemma_word_join(hi, lo);
        }
        (hi << 8) | lo
    }

    /// `PUSH r16`.
    pub(crate) fn push_r16(&mut self, bits_54: u8) -> (cycles: u8)
        requires
            old(self).inv(),
            bits_54 < 4,
        ensures
            final(self)@ == old(self)@.push_r16(bits_54).0,
            cycles == old(self)@.push_r16(bits_54).1,
            final(self).inv(),
    {
        let val = if bits_54 == 0b11 {
            self.get_af()
        } else {
            self.get_r16(bits_54)
        };
        self.push_word(val);
        self.program_counter = self.program_counter.wrapping_add(1);
        4
    }

    /// `POP r16`.
    pub(crate) fn pop_r16(&mut self, bits_54: u8) -> (cycles: u8)
        requires
            old(self).inv(),
            bits_54 < 4,
        ensures
            final(self)@ == old(self)@.pop_r16(bits_54).0,
            cycles == old(self)@.pop_r16(bits_54).1,
            final(self).inv(),
    {
        let val = self.pop_word();
        if bits_54 == 0b11 {
            self.set_af(val);
        } else {
            self.set_r16(bits_54, val);
        }
        self.program_counter = self.program_counter.wrapping_add(1);
        3
    }

    /// The flags and the sum of `ADD SP, e8` and `LD HL, SP+e8`.
    fn sp_plus_offset(sp: u16, b: u8) -> (out: (u16, bool, bool))
        ensures
            out.0 == ((sp + signed(b)) % 65536) as u16,
            out.1 == (sp % 16 + b % 16 > 15),
            out.2 == (sp % 256 + b > 255),
    {
        let imm = b as i8;
        let immu = imm as u16;
        proof {
            lemma_sign_extend(b);
            lemma_add_offset_u16(sp, b);
            assert(sp & 0xF == sp % 16 && sp & 0xFF == sp % 256) by (bit_vector);
        }
        // H and C come from the low byte of SP.
        let halfcarry_flag = (sp & 0xF).wrapping_add(immu & 0xF) > 0xF;
        let carry_flag = (sp & 0xFF).wrapping_add(immu & 0xFF) > 0xFF;
        let result = ((sp as i32) + (imm as i32)) as u16;
        (result, halfcarry_flag, carry_flag)
    }

    /// `ADD SP, e8`.
    pub(crate) fn add_sp_imm8(&mut self) -> (cycles: u8)
        requires
            old(self).inv(),
            old(self).program_counter < usize::MAX,
        ensures
            final(self)@ == old(self)@.add_sp_imm8().0,
            cycles == old(self)@.add_sp_imm8().1,
            final(self).inv(),
    {
        let b = self.memory.read_byte((self.program_counter + 1) as u16);
        let (sp, halfcarry_flag, carry_flag) = Self::sp_plus_offset(self.stack_pointer, b);
        self.stack_pointer = sp;
        let ghost f = self.work_registers@[6];
        self.set_flags(false, false, halfcarry_flag, carry_flag);
        self.clear_flags(true, true, !halfcarry_flag, !carry_flag);
        proof {
            lemma_set_then_clear(f, false, false, halfcarry_flag, carry_flag, true, true, !halfcarry_flag, !carry_flag);
        }
        self.program_counter = self.program_counter.wrapping_add(2);
        assert(self@ =~= old(self)@.add_sp_imm8().0);
        4
    }

    /// `LD HL, SP+e8`.
    pub(crate) fn ld_hl_sp_imm8(&mut self) -> (cycles: u8)
        requires
            old(self).inv(),
            old(self).program_counter < usize::MAX,
        ensures
            final(self)@ == old(self)@.ld_hl_sp_imm8().0,
            cycles == old(self)@.ld_hl_sp_imm8().1,
            final(self).inv(),
    {
        let b = self.memory.read_byte((self.program_counter + 1) as u16);
        let (result, halfcarry_flag, carry_flag) = Self::sp_plus_offset(self.stack_pointer, b);
        self.set_r16(R16_HL, result);
        let ghost f = self.work_registers@[6];
        self.set_flags(false, false, halfcarry_flag, carry_flag);
        self.clear_flags(true, true, !halfcarry_flag, !carry_flag);
        proof {
            lemma_set_then_clear(f, false, false, halfcarry_flag, carry_flag, true, true, !halfcarry_flag, !carry_flag);
        }
        self.program_counter = self.program_counter.wrapping_add(2);
        assert(self@ =~= old(self)@.ld_hl_sp_imm8().0);
        3
    }

    /// `LD SP, HL`.
    pub(crate) fn ld_sp_hl(&mut self) -> (cycles: u8)
        requires
            old(self).inv(),
        ensures
            final(self)@ == old(self)@.ld_sp_hl().0,
            cycles == old(self)@.ld_sp_hl().1,
            final(self).inv(),
    {
        self.stack_pointer = self.get_r16(R16_HL);
        self.program_counter = self.program_counter.wrapping_add(1);
        2
    }

    /// `ADD HL, r16`.
    pub(crate) fn add_hl_r16(&mut self, bits_54: u8) -> (cycles: u8)
        requires
            old(self).inv(),
            bits_54 < 4,
        ensures
            final(self)@ == old(self)@.add_hl_r16(bits_54).0,
            cycles == old(self)@.add_hl_r16(bits_54).1,
            final(self).inv(),
    {
        let hl = self.get_r16(R16_HL);
        let rr: u16 = if bits_54 == R16_SP {
            self.stack_pointer
        } else {
            self.get_r16(bits_54)
        };
        assert(hl & 0x0FFF == hl % 4096 && rr & 0x0FFF == rr % 4096) by (bit_vector);
        let halfcarry_flag = (hl & 0x0FFF) + (rr & 0x0FFF) > 0x0FFF;
        let carry_flag = (hl as u32) + (rr as u32) > 0xFFFF;
        let sum = hl.wrapping_add(rr);
        assert(sum == ((hl + rr) % 65536) as u16);
        let ghost s0 = old(self)@;
        assert(halfcarry_flag == (hl % 4096 + rr % 4096 > 4095));
        assert(carry_flag == (hl + rr > 65535));
        assert(s0.flag_z() == (s0.f() & 0x80 != 0));
        self.set_r16(R16_HL, sum);
        let ghost s1 = self@;
        assert(s1 == s0.set_r16(2, sum));
        let ghost f = self.work_registers@[6];
        assert(f == s0.f());
        self.set_flags(false, false, halfcarry_flag, carry_flag);
        self.clear_flags(false, true, !halfcarry_flag, !carry_flag);
        proof {
            lemma_set_then_clear(f, false, false, halfcarry_flag, carry_flag, false, true, !halfcarry_flag, !carry_flag);
        }
        assert(self@ == s1.with_flags(s0.flag_z(), false, halfcarry_flag, carry_flag));
        self.program_counter = self.program_counter.wrapping_add(1);
        2
    }

    /// `INC r16`.
    pub(crate) fn inc_r16(&mut self, bits_54: u8) -> (cycles: u8)
        requires
            old(self).inv(),
            bits_54 < 4,
        ensures
            final(self)@ == old(self)@.inc_r16(bits_54).0,
            cycles == old(self)@.inc_r16(bits_54).1,
            final(self).inv(),
    {
        if bits_54 == R16_SP {
            self.stack_pointer = self.stack_pointer.wrapping_add(1);
        } else {
            let val = self.get_r16(bits_54);
            self.set_r16(bits_54, val.wrapping_add(1));
        }
        self.program_counter = self.program_counter.wrapping_add(1);
        2
    }

    /// `DEC r16`.
    pub(crate) fn dec_r16(&mut self, bits_54: u8) -> (cycles: u8)
        requires
            old(self).inv(),
            bits_54 < 4,
        ensures
            final(self)@ == old(self)@.dec_r16(bits_54).0,
            cycles == old(self)@.dec_r16(bits_54).1,
            final(self).inv(),
    {
        if bits_54 == R16_SP {
            self.stack_pointer = self.stack_pointer.wrapping_sub(1);
        } else {
            let val = self.get_r16(bits_54);
            self.set_r16(bits_54, val.wrapping_sub(1));
        }
        self.program_counter = self.program_counter.wrapping_add(1);
        2
    }

    /// `INC r8`.
    pub(crate) fn inc_r8(&mut self, bits_543: u8) -> (cycles: u8)
        requires
            old(self).inv(),
            bits_543 < 8,
        ensures
            final(self)@ == old(self)@.inc_r8(bits_543).0,
            cycles == old(self)@.inc_r8(bits_543).1,
            final(self).inv(),
    {
        let cycles: u8;
        let old_value: u8;
        let result: u8;
        if bits_543 == 0b110 {
            let addr = self.get_r16(R16_HL);
            old_value = self.memory.read_byte(addr);
            result = old_value.wrapping_add(1);
            self.memory.write_byte(addr, result);
            cycles = 3;
        } else {
            old_value = self.work_registers[bits_543 as usize];
            result = old_value.wrapping_add(1);
            self.work_registers[bits_543 as usize] = result;
            cycles = 1;
        }
        proof {
            lemma_low_nibble(old_value);
        }
        let halfcarry_flag = (old_value & 0xF) == 0xF;
        let zero_flag = result == 0;
        let ghost f = self.work_registers@[6];
        self.set_flags(zero_flag, false, halfcarry_flag, false);
        self.clear_flags(!zero_flag, true, !halfcarry_flag, false);
        proof {
            lemma_set_then_clear(f, zero_flag, false, halfcarry_flag, false, !zero_flag, true, !halfcarry_flag, false);
        }
        self.program_counter = self.program_counter.wrapping_add(1);
        assert(self@ =~= old(self)@.inc_r8(bits_543).0);
        cycles
    }

    /// `DEC r8`.
    pub(crate) fn dec_r8(&mut self, bits_543: u8) -> (cycles: u8)
        requires
            old(self).inv(),
            bits_543 < 8,
        ensures
            final(self)@ == old(self)@.dec_r8(bits_543).0,
            cycles == old(self)@.dec_r8(bits_543).1,
            final(self).inv(),
    {
        let cycles: u8;
        let old_value: u8;
        let result: u8;
        if bits_543 == 0b110 {
            let addr = self.get_r16(R16_HL);
            old_value = self.memory.read_byte(addr);
            result = old_value.wrapping_sub(1);
            self.memory.write_byte(addr, result);
            cycles = 3;
        } else {
            old_value = self.work_registers[bits_543 as usize];
            result = old_value.wrapping_sub(1);
            self.work_registers[bits_543 as usize] = result;
            cycles = 1;
        }
        proof {
            lemma_low_nibble(old_value);
        }
        // H is the borrow from the low nibble.
        let halfcarry_flag = (old_value & 0xF) == 0;
        let zero_flag = result == 0;
        let ghost f = self.work_registers@[6];
        self.set_flags(zero_flag, true, halfcarry_flag, false);
        self.clear_flags(!zero_flag, false, !halfcarry_flag, false);
        proof {
            lemma_set_then_clear(f, zero_flag, true, halfcarry_flag, false, !zero_flag, false, !halfcarry_flag, false);
        }
        self.program_counter = self.program_counter.wrapping_add(1);
        assert(self@ =~= old(self)@.dec_r8(bits_543).0);
        cycles
    }
}

} // verus!
