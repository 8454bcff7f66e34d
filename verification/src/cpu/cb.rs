//! The instructions behind the 0xCB prefix: rotations and shifts, and bit
//! test, reset and set, on a register or the byte at HL.

use super::misc::{lemma_shifts, shl_in, shr_in};
use super::{lemma_set_then_clear, Cpu, CpuState, R16_HL};
use vstd::prelude::*;

verus! {

/// The result and the carry of a CB rotation or shift selected by bits 5-3:
/// RLC, RRC, RL, RR, SLA, SRA (bit 7 kept), SWAP (nibbles exchanged, carry
/// cleared) and SRL.
pub open spec fn rot_shift(op: u8, val: u8, carry_in: bool) -> (u8, bool) {
    if op == 0 {
        (shl_in(val, val >= 128), val >= 128)
    } else if op == 1 {
        (shr_in(val, val % 2 == 1), val % 2 == 1)
    } else if op == 2 {
        (shl_in(val, carry_in), val >= 128)
    } else if op == 3 {
        (shr_in(val, carry_in), val % 2 == 1)
    } else if op == 4 {
        (shl_in(val, false), val >= 128)
    } else if op == 5 {
        (shr_in(val, val >= 128), val % 2 == 1)
    } else if op == 6 {
        (((val % 16) * 16 + val / 16) as u8, false)
    } else {
        (shr_in(val, false), val % 2 == 1)
    }
}

/// Whether bit `b` of `val` is set.
pub open spec fn bit_is_set(val: u8, b: u8) -> bool {
    (val >> b) & 1 == 1
}

impl CpuState {
    /// A CB rotation or shift of `val`: the result, and the state with Z from
    /// the result, N and H cleared and C from the bit shifted out.
    pub open spec fn cb_rot(self, op: u8, val: u8) -> (u8, CpuState) {
        let (r, c) = rot_shift(op, val, self.flag_c());
        (r, self.with_flags(r == 0, false, false, c))
    }

    /// A CB rotation or shift of a register or the byte at HL: 2 bytes; 4
    /// cycles on the byte at HL, else 2.
    pub open spec fn cb_rotates_shifts(self, bits_543: u8, bits_210: u8) -> (CpuState, u8) {
        let (v, s) = self.r8_operand(bits_210);
        let (r, s2) = s.cb_rot(bits_543, v);
        (s2.store_r8(bits_210, r).advance(2), if bits_210 == 6 { 4u8 } else { 2u8 })
    }

    /// `BIT b, r8`: Z is the complement of the bit, N cleared, H set, C kept.
    /// 2 bytes; 3 cycles on the byte at HL, else 2.
    pub open spec fn cb_bit(self, bits_543: u8, bits_210: u8) -> (CpuState, u8) {
        let (v, s) = self.r8_operand(bits_210);
        (s.with_flags(!bit_is_set(v, bits_543), false, true, s.flag_c()).advance(2), if bits_210
            == 6 {
            3u8
        } else {
            2u8
        })
    }

    /// `RES b, r8`: clears the bit, flags kept.  2 bytes; 4 cycles on the
    /// byte at HL, else 2.
    pub open spec fn cb_res(self, bits_543: u8, bits_210: u8) -> (CpuState, u8) {
        let (v, s) = self.r8_operand(bits_210);
        (s.store_r8(bits_210, v & !(1u8 << bits_543)).advance(2), if bits_210 == 6 {
            4u8
        } else {
            2u8
        })
    }

    /// `SET b, r8`: sets the bit, flags kept.  2 bytes; 4 cycles on the byte
    /// at HL, else 2.
    pub open spec fn cb_set(self, bits_543: u8, bits_210: u8) -> (CpuState, u8) {
        let (v, s) = self.r8_operand(bits_210);
        (s.store_r8(bits_210, v | (1u8 << bits_543)).advance(2), if bits_210 == 6 {
            4u8
        } else {
            2u8
        })
    }
}


/// SWAP twice gives the byte back.
pub proof fn law_swap_twice(v: u8, c1: bool, c2: bool)
    ensures
        rot_shift(6, rot_shift(6, v, c1).0, c2).0 == v,
{
}

/// The right rotations undo the left ones: RRC after RLC, RLC after RRC, and
/// RR after RL when RR gets back the carry that RL shifted out (and the other
/// way round).
pub proof fn law_rotations_undo(v: u8, c: bool)
    ensures
        rot_shift(1, rot_shift(0, v, c).0, c).0 == v,
        rot_shift(0, rot_shift(1, v, c).0, c).0 == v,
        rot_shift(3, rot_shift(2, v, c).0, rot_shift(2, v, c).1) == (v, c),
        rot_shift(2, rot_shift(3, v, c).0, rot_shift(3, v, c).1) == (v, c),
{
    lemma_shift_back(v, v >= 128);
    lemma_shift_back(v, c);
    lemma_shift_forth(v, v % 2 == 1);
    lemma_shift_forth(v, c);
}

/// Shifting left with `bit` in, then right with the bit shifted out, gives
/// the byte back; the bit comes out at the other end.
proof fn lemma_shift_back(v: u8, bit: bool)
    ensures
        shr_in(shl_in(v, bit), v >= 128) == v,
        (shl_in(v, bit) % 2 == 1) == bit,
{
}

/// Shifting right with `bit` in, then left with the bit shifted out, gives
/// the byte back; the bit comes out at the other end.
proof fn lemma_shift_forth(v: u8, bit: bool)
    ensures
        shl_in(shr_in(v, bit), v % 2 == 1) == v,
        (shr_in(v, bit) >= 128) == bit,
{
}

/// After `RES b` bit `b` tests clear and after `SET b` it tests set; the
/// other bits keep their value.
pub proof fn law_res_set_then_bit(v: u8, b: u8, other: u8)
    requires
        b < 8,
        other < 8,
        other != b,
    ensures
        !bit_is_set(v & !(1u8 << b), b),
        bit_is_set(v | (1u8 << b), b),
        bit_is_set(v & !(1u8 << b), other) == bit_is_set(v, other),
        bit_is_set(v | (1u8 << b), other) == bit_is_set(v, other),
{
    assert(!bit_is_set(v & !(1u8 << b), b) && bit_is_set(v | (1u8 << b), b) && bit_is_set(v & !(1u8
        << b), other) == bit_is_set(v, other) && bit_is_set(v | (1u8 << b), other) == bit_is_set(
        v,
        other,
    )) by (bit_vector)
        requires
            b < 8,
            other < 8,
            other != b,
    ;
}

impl Cpu {
    /// A CB rotation or shift on a register or the byte at HL.
    pub(crate) fn cb_rotates_shifts(&mut self, bits_543: u8, bits_210: u8) -> (cycles: u8)
        requires
            old(self).inv(),
            bits_543 < 8,
            bits_210 < 8,
        ensures
            final(self)@ == old(self)@.cb_rotates_shifts(bits_543, bits_210).0,
            cycles == old(self)@.cb_rotates_shifts(bits_543, bits_210).1,
            final(self).inv(),
    {
        if bits_210 == 0b110 {
            let addr = self.get_r16(R16_HL);
            let val = self.memory.read_byte(addr);
            let new_val = self.perform_cb_rot_shift(bits_543, val);
            self.memory.write_byte(addr, new_val);
            self.program_counter = self.program_counter.wrapping_add(2);
            return 4;
        }
        let val = self.work_registers[bits_210 as usize];
        let new_val = self.perform_cb_rot_shift(bits_543, val);
        self.work_registers[bits_210 as usize] = new_val;
        self.program_counter = self.program_counter.wrapping_add(2);
        2
    }

    /// Rotates or shifts `val` and sets the flags.
    pub(crate) fn perform_cb_rot_shift(&mut self, bits_543: u8, val: u8) -> (result: u8)
        requires
            bits_543 < 8,
        ensures
            (result, final(self)@) == old(self)@.cb_rot(bits_543, val),
            final(self).inv() == old(self).inv(),
    {
        let old_carry = self.work_registers[6] & 0b00010000 != 0;
        proof {
            lemma_shifts(val, val >= 128);
            lemma_shifts(val, val % 2 == 1);
            lemma_shifts(val, old_carry);
            lemma_shifts(val, false);
            assert((val << 4) | (val >> 4) == ((val % 16) * 16 + val / 16) as u8 && (val >> 1) | (val
                & 0b10000000) == (val >> 1) | (if val >= 128 { 0x80u8 } else { 0u8 }) && val << 1 == (
            val << 1) | 0u8 && val >> 1 == (val >> 1) | 0u8) by (bit_vector);
        }
        let result: u8;
        let new_carry: bool;
        if bits_543 == 0b000 {
            new_carry = (val & 0b10000000) != 0;
            result = (val << 1) | (if new_carry { 1u8 } else { 0u8 });
        } else if bits_543 == 0b001 {
            new_carry = (val & 1) != 0;
            result = (val >> 1) | (if new_carry { 0b10000000u8 } else { 0u8 });
        } else if bits_543 == 0b010 {
            new_carry = (val & 0b10000000) != 0;
            result = (val << 1) | (if old_carry { 1u8 } else { 0u8 });
        } else if bits_543 == 0b011 {
            new_carry = (val & 1) != 0;
            result = (val >> 1) | (if old_carry { 0b10000000u8 } else { 0u8 });
        } else if bits_543 == 0b100 {
            new_carry = (val & 0b10000000) != 0;
            result = val << 1;
        } else if bits_543 == 0b101 {
            new_carry = (val & 1) != 0;
            result = (val >> 1) | (val & 0b10000000);
        } else if bits_543 == 0b110 {
            result = (val << 4) | (val >> 4);
            new_carry = false;
        } else {
            new_carry = (val & 1) != 0;
            result = val >> 1;
        }
        let zero = result == 0;
        let ghost f = self.work_registers@[6];
        self.set_flags(zero, false, false, new_carry);
        self.clear_flags(!zero, true, true, !new_carry);
        proof {
            lemma_set_then_clear(f, zero, false, false, new_carry, !zero, true, true, !new_carry);
        }
        assert(self@ =~= old(self)@.cb_rot(bits_543, val).1);
        result
    }

    /// `BIT b, r8`.
    pub(crate) fn cb_bit(&mut self, bits_543: u8, bits_210: u8) -> (cycles: u8)
        requires
            old(self).inv(),
            bits_543 < 8,
            bits_210 < 8,
        ensures
            final(self)@ == old(self)@.cb_bit(bits_543, bits_210).0,
            cycles == old(self)@.cb_bit(bits_543, bits_210).1,
            final(self).inv(),
    {
        let val = if bits_210 == 0b110 {
            let addr = self.get_r16(R16_HL);
            self.memory.read_byte(addr)
        } else {
            self.work_registers[bits_210 as usize]
        };
        let zero = (val & (1u8 << bits_543)) == 0;
        assert(zero == !bit_is_set(val, bits_543)) by (bit_vector)
            requires
                zero == ((val & (1u8 << bits_543)) == 0),
                bits_543 < 8,
        ;
        let ghost f = self.work_registers@[6];
        self.set_flags(zero, false, true, false);
        self.clear_flags(!zero, true, false, false);
        proof {
            lemma_set_then_clear(f, zero, false, true, false, !zero, true, false, false);
        }
        self.program_counter = self.program_counter.wrapping_add(2);
        assert(self@ =~= old(self)@.cb_bit(bits_543, bits_210).0);
        if bits_210 == 0b110 {
            3
        } else {
            2
        }
    }

    /// `RES b, r8`.
    pub(crate) fn cb_res(&mut self, bits_543: u8, bits_210: u8) -> (cycles: u8)
        requires
            old(self).inv(),
            bits_543 < 8,
            bits_210 < 8,
        ensures
            final(self)@ == old(self)@.cb_res(bits_543, bits_210).0,
            cycles == old(self)@.cb_res(bits_543, bits_210).1,
            final(self).inv(),
    {
        if bits_210 == 0b110 {
            let addr = self.get_r16(R16_HL);
            let mut val = self.memory.read_byte(addr);
            val = val & !(1u8 << bits_543);
            self.memory.write_byte(addr, val);
            self.program_counter = self.program_counter.wrapping_add(2);
            return 4;
        }
        let mut val = self.work_registers[bits_210 as usize];
        val = val & !(1u8 << bits_543);
        self.work_registers[bits_210 as usize] = val;
        self.program_counter = self.program_counter.wrapping_add(2);
        2
    }

    /// `SET b, r8`.
    pub(crate) fn cb_set(&mut self, bits_543: u8, bits_210: u8) -> (cycles: u8)
        requires
            old(self).inv(),
            bits_543 < 8,
            bits_210 < 8,
        ensures
            final(self)@ == old(self)@.cb_set(bits_543, bits_210).0,
            cycles == old(self)@.cb_set(bits_543, bits_210).1,
            final(self).inv(),
    {
        if bits_210 == 0b110 {
            let addr = self.get_r16(R16_HL);
            let mut val = self.memory.read_byte(addr);
            val = val | (1u8 << bits_543);
            self.memory.write_byte(addr, val);
            self.program_counter = self.program_counter.wrapping_add(2);
            return 4;
        }
        let mut val = self.work_registers[bits_210 as usize];
        val = val | (1u8 << bits_543);
        self.work_registers[bits_210 as usize] = val;
        self.program_counter = self.program_counter.wrapping_add(2);
        2
    }
}

} // verus!
