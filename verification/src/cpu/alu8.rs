//! 8-bit arithmetic and logic on the accumulator, and DAA.

use super::{flags_with, lemma_low_byte, lemma_low_nibble, lemma_set_then_clear, Cpu, CpuState, R16_HL};
use vstd::prelude::*;

verus! {

impl CpuState {
    /// The operand named by a register field: a register, or the byte at HL
    /// for field 6.
    pub open spec fn r8_operand(self, r: u8) -> (u8, CpuState) {
        if r == 6 {
            self.read(self.hl())
        } else {
            (self.regs[r as int], self)
        }
    }

    /// A = A + v.  H: carry out of bit 3, C: carry out of bit 7.
    pub open spec fn alu_add(self, v: u8) -> CpuState {
        let a = self.a();
        let r = ((a + v) % 256) as u8;
        self.set_reg(7, r).with_flags(r == 0, false, a % 16 + v % 16 > 15, a + v > 255)
    }

    /// A = A + v + C.
    pub open spec fn alu_adc(self, v: u8) -> CpuState {
        let a = self.a();
        let carry: int = if self.flag_c() { 1 } else { 0 };
        let r = ((a + v + carry) % 256) as u8;
        self.set_reg(7, r).with_flags(r == 0, false, a % 16 + v % 16 + carry > 15, a + v + carry > 255)
    }

    /// A = A - v.  H: borrow from bit 4, C: borrow.
    pub open spec fn alu_sub(self, v: u8) -> CpuState {
        let a = self.a();
        let r = ((a - v) % 256) as u8;
        self.set_reg(7, r).with_flags(r == 0, true, a % 16 < v % 16, a < v)
    }

    /// A = A - v - C.
    pub open spec fn alu_sbc(self, v: u8) -> CpuState {
        let a = self.a();
        let carry: int = if self.flag_c() { 1 } else { 0 };
        let r = ((a - v - carry) % 256) as u8;
        self.set_reg(7, r).with_flags(r == 0, true, a % 16 < v % 16 + carry, a < v + carry)
    }

    /// A = A & v.  H is set.
    pub open spec fn alu_and(self, v: u8) -> CpuState {
        let r = self.a() & v;
        self.set_reg(7, r).with_flags(r == 0, false, true, false)
    }

    /// A = A ^ v.
    pub open spec fn alu_xor(self, v: u8) -> CpuState {
        let r = self.a() ^ v;
        self.set_reg(7, r).with_flags(r == 0, false, false, false)
    }

    /// A = A | v.
    pub open spec fn alu_or(self, v: u8) -> CpuState {
        let r = self.a() | v;
        self.set_reg(7, r).with_flags(r == 0, false, false, false)
    }

    /// The flags of A - v; A is kept.
    pub open spec fn alu_cp(self, v: u8) -> CpuState {
        let a = self.a();
        self.with_flags(a == v, true, a % 16 < v % 16, a < v)
    }

    /// The operation selected by bits 5-3 of an ALU opcode.
    pub open spec fn alu(self, op: u8, v: u8) -> CpuState {
        if op == 0 {
            self.alu_add(v)
        } else if op == 1 {
            self.alu_adc(v)
        } else if op == 2 {
            self.alu_sub(v)
        } else if op == 3 {
            self.alu_sbc(v)
        } else if op == 4 {
            self.alu_and(v)
        } else if op == 5 {
            self.alu_xor(v)
        } else if op == 6 {
            self.alu_or(v)
        } else {
            self.alu_cp(v)
        }
    }

    /// `op A, r8`: one byte; 2 cycles with the operand at HL, else 1.
    pub open spec fn alu_r8(self, op: u8, r: u8) -> (CpuState, u8) {
        let (v, s) = self.r8_operand(r);
        (s.alu(op, v).advance(1), if r == 6 { 2u8 } else { 1u8 })
    }

    /// `op A, imm8`: two bytes, 2 cycles.
    pub open spec fn alu_imm8(self, op: u8) -> (CpuState, u8) {
        let (v, s) = self.operand(1);
        (s.alu(op, v).advance(2), 2u8)
    }

    /// Decimal adjust after a BCD addition (N clear) or subtraction (N set):
    /// the adjusted A and the new carry.  0x60 is added (subtracted) when C
    /// is set or, after an addition, when A > 0x99; then 0x06 when H is set
    /// or, after an addition, when the low digit exceeds 9.
    pub open spec fn daa_adjust(a0: u8, n: bool, hf: bool, cf: bool) -> (u8, bool) {
        let high_fix = if !n { cf || a0 > 0x99 } else { cf };
        let a1: int = if !high_fix { a0 as int } else if !n { a0 + 0x60 } else { a0 - 0x60 };
        let a1 = (a1 % 256) as u8;
        let low_fix = if !n { hf || a1 % 16 > 9 } else { hf };
        let a2: int = if !low_fix { a1 as int } else if !n { a1 + 0x06 } else { a1 - 0x06 };
        ((a2 % 256) as u8, high_fix)
    }

    /// `DAA`: N is kept, H cleared, C set when 0x60 was applied.
    pub open spec fn daa(self) -> (CpuState, u8) {
        let (r, carry) = Self::daa_adjust(self.a(), self.flag_n(), self.flag_h(), self.flag_c());
        (self.set_reg(7, r).with_flags(r == 0, self.flag_n(), false, carry).advance(1), 1u8)
    }
}


/// Whether both digits of a byte are decimal.
pub open spec fn is_bcd(v: u8) -> bool {
    v / 16 <= 9 && v % 16 <= 9
}

/// The number written by the two decimal digits of a BCD byte.
pub open spec fn bcd_number(v: u8) -> int {
    (v / 16) * 10 + v % 16
}

/// `DAA` after adding two BCD bytes leaves the BCD digits of their decimal
/// sum modulo 100 in A, and sets C exactly when the sum reaches 100.
pub proof fn law_daa_after_add(a: u8, b: u8)
    requires
        is_bcd(a),
        is_bcd(b),
    ensures
        ({
            let (d, c) = CpuState::daa_adjust(((a + b) % 256) as u8, false, a % 16 + b % 16 > 15, a + b > 255);
            &&& is_bcd(d)
            &&& bcd_number(d) == (bcd_number(a) + bcd_number(b)) % 100
            &&& c == (bcd_number(a) + bcd_number(b) >= 100)
        }),
{
    let r = ((a + b) % 256) as u8;
    let high_fix = a + b > 255 || r > 0x99;
    let a1: u8 = if high_fix { ((r + 0x60) % 256) as u8 } else { r };
    let low_fix = a % 16 + b % 16 > 15 || a1 % 16 > 9;
    let d: u8 = if low_fix { ((a1 + 0x06) % 256) as u8 } else { a1 };
    assert(CpuState::daa_adjust(r, false, a % 16 + b % 16 > 15, a + b > 255) == (d, high_fix));
    assert(d / 16 <= 9 && d % 16 <= 9 && (d / 16) * 10 + d % 16 == ((a / 16) * 10 + a % 16 + (b
        / 16) * 10 + b % 16) % 100 && high_fix == ((a / 16) * 10 + a % 16 + (b / 16) * 10 + b % 16
        >= 100)) by (bit_vector)
        requires
            a / 16 <= 9 && a % 16 <= 9,
            b / 16 <= 9 && b % 16 <= 9,
            r == ((a + b) % 256) as u8,
            high_fix == (a + b > 255 || r > 0x99),
            a1 == if high_fix { ((r + 0x60) % 256) as u8 } else { r },
            low_fix == (a % 16 + b % 16 > 15 || a1 % 16 > 9),
            d == if low_fix { ((a1 + 0x06) % 256) as u8 } else { a1 },
    ;
}

/// `DAA` after subtracting two BCD bytes leaves the BCD digits of their
/// decimal difference modulo 100 in A, and keeps C set exactly when the
/// subtraction borrowed.
pub proof fn law_daa_after_sub(a: u8, b: u8)
    requires
        is_bcd(a),
        is_bcd(b),
    ensures
        ({
            let (d, c) = CpuState::daa_adjust(((a - b) % 256) as u8, true, a % 16 < b % 16, a < b);
            &&& is_bcd(d)
            &&& bcd_number(d) == (bcd_number(a) - bcd_number(b)) % 100
            &&& c == (bcd_number(a) < bcd_number(b))
        }),
{
    let r = ((a - b) % 256) as u8;
    let a1: u8 = if a < b { ((r - 0x60) % 256) as u8 } else { r };
    let d: u8 = if a % 16 < b % 16 { ((a1 - 0x06) % 256) as u8 } else { a1 };
    assert(CpuState::daa_adjust(r, true, a % 16 < b % 16, a < b) == (d, a < b));
    lemma_daa_sub_digits(a, b, r, a1, d);
}

/// The digits of `DAA` after a BCD subtraction, bit by bit.
proof fn lemma_daa_sub_digits(a: u8, b: u8, r: u8, a1: u8, d: u8)
    requires
        is_bcd(a),
        is_bcd(b),
        r == ((a - b) % 256) as u8,
        a1 == if a < b { ((r - 0x60) % 256) as u8 } else { r },
        d == if a % 16 < b % 16 { ((a1 - 0x06) % 256) as u8 } else { a1 },
    ensures
        is_bcd(d),
        bcd_number(d) == (bcd_number(a) - bcd_number(b)) % 100,
        (a < b) == (bcd_number(a) < bcd_number(b)),
{
    assert(d / 16 <= 9 && d % 16 <= 9 && (d / 16) * 10 + d % 16 == (if a < b {
        100int
    } else {
        0int
    }) + (a / 16) * 10 + a % 16 - (b / 16) * 10 - b % 16 && (a < b) == ((a / 16) * 10 + a % 16 < (
    b / 16) * 10 + b % 16)) by (bit_vector)
        requires
            a / 16 <= 9 && a % 16 <= 9,
            b / 16 <= 9 && b % 16 <= 9,
            r == ((a - b) % 256) as u8,
            a1 == if a < b { ((r - 0x60) % 256) as u8 } else { r },
            d == if a % 16 < b % 16 { ((a1 - 0x06) % 256) as u8 } else { a1 },
    ;
    let x = bcd_number(a);
    let y = bcd_number(b);
    assert(-100 < x - y < 100);
    if x < y {
        assert((x - y) % 100 == x - y + 100);
    } else {
        assert((x - y) % 100 == x - y);
    }
}

impl Cpu {
    /// Reads the operand named by a register field.
    fn r8_operand(&mut self, bits_210: u8) -> (v: u8)
        requires
            old(self).inv(),
            bits_210 < 8,
        ensures
            (v, final(self)@) == old(self)@.r8_operand(bits_210),
            final(self).inv(),
    {
        if bits_210 == 0b110 {
            let hl = self.get_r16(R16_HL);
            self.memory.read_byte(hl)
        } else {
            self.work_registers[bits_210 as usize]
        }
    }

    /// Writes the result of an arithmetic operation into A and the flags,
    /// the way every ALU instruction does: the flags given true are set,
    /// then their complements cleared.
    fn finish_alu(&mut self, result: u8, z: bool, n: bool, h: bool, c: bool)
        ensures
            final(self)@ == old(self)@.set_reg(7, result).with_flags(z, n, h, c),
            final(self).inv() == old(self).inv(),
    {
        self.work_registers[7] = result;
        let ghost f = self.work_registers@[6];
        self.set_flags(z, n, h, c);
        self.clear_flags(!z, !n, !h, !c);
        proof {
            lemma_set_then_clear(f, z, n, h, c, !z, !n, !h, !c);
        }
        assert(self@ =~= old(self)@.set_reg(7, result).with_flags(z, n, h, c));
    }

    fn op_add(&mut self, v: u8)
        ensures
            final(self)@ == old(self)@.alu_add(v),
            final(self).inv() == old(self).inv(),
    {
        let a = self.work_registers[7];
        proof {
            lemma_low_nibble(a);
            lemma_low_nibble(v);
        }
        let halfcarry_flag = (a & 0xF) + (v & 0xF) > 0xF;
        let carry_flag = (a as u16) + (v as u16) > 0xFF;
        let r = a.wrapping_add(v);
        self.finish_alu(r, r == 0, false, halfcarry_flag, carry_flag);
    }

    fn op_adc(&mut self, v: u8)
        ensures
            final(self)@ == old(self)@.alu_adc(v),
            final(self).inv() == old(self).inv(),
    {
        // The carry is added on its own: folding it into the operand would
        // overflow and give wrong H and C.
        let carry_in: u16 = if self.work_registers[6] & 0b00010000 != 0 { 1 } else { 0 };
        let a = self.work_registers[7] as u16;
        let v16 = v as u16;
        let result = a + v16 + carry_in;
        proof {
            lemma_low_byte(result);
            assert(a & 0xF == a % 16 && v16 & 0xF == v16 % 16) by (bit_vector);
        }
        let halfcarry_flag = (a & 0xF) + (v16 & 0xF) + carry_in > 0xF;
        let carry_flag = result > 0xFF;
        let r = #[verifier::truncate] (result as u8);
        self.finish_alu(r, r == 0, false, halfcarry_flag, carry_flag);
    }

    fn op_sub(&mut self, v: u8)
        ensures
            final(self)@ == old(self)@.alu_sub(v),
            final(self).inv() == old(self).inv(),
    {
        let a = self.work_registers[7];
        proof {
            lemma_low_nibble(a);
            lemma_low_nibble(v);
        }
        let halfcarry_flag = (a & 0xF) < (v & 0xF);
        let carry_flag = (a as u16) < (v as u16);
        let r = a.wrapping_sub(v);
        self.finish_alu(r, r == 0, true, halfcarry_flag, carry_flag);
    }

    fn op_sbc(&mut self, v: u8)
        ensures
            final(self)@ == old(self)@.alu_sbc(v),
            final(self).inv() == old(self).inv(),
    {
        let carry_in: u16 = if self.work_registers[6] & 0b00010000 != 0 { 1 } else { 0 };
        let a = self.work_registers[7] as u16;
        let v16 = v as u16;
        let wide = a.wrapping_sub(v16).wrapping_sub(carry_in);
        proof {
            lemma_low_byte(wide);
            assert(a & 0xF == a % 16 && v16 & 0xF == v16 % 16) by (bit_vector);
        }
        let halfcarry_flag = (a & 0xF) < (v16 & 0xF) + carry_in;
        let carry_flag = a < v16 + carry_in;
        let r = #[verifier::truncate] (wide as u8);
        self.finish_alu(r, r == 0, true, halfcarry_flag, carry_flag);
    }

    fn op_and(&mut self, v: u8)
        ensures
            final(self)@ == old(self)@.alu_and(v),
            final(self).inv() == old(self).inv(),
    {
        let r = self.work_registers[7] & v;
        self.finish_alu(r, r == 0, false, true, false);
    }

    fn op_xor(&mut self, v: u8)
        ensures
            final(self)@ == old(self)@.alu_xor(v),
            final(self).inv() == old(self).inv(),
    {
        let r = self.work_registers[7] ^ v;
        self.finish_alu(r, r == 0, false, false, false);
    }

    fn op_or(&mut self, v: u8)
        ensures
            final(self)@ == old(self)@.alu_or(v),
            final(self).inv() == old(self).inv(),
    {
        let r = self.work_registers[7] | v;
        self.finish_alu(r, r == 0, false, false, false);
    }

    fn op_cp(&mut self, v: u8)
        ensures
            final(self)@ == old(self)@.alu_cp(v),
            final(self).inv() == old(self).inv(),
    {
        let a = self.work_registers[7];
        proof {
            lemma_low_nibble(a);
            lemma_low_nibble(v);
        }
        let halfcarry_flag = (a & 0xF) < (v & 0xF);
        let carry_flag = (a as u16) < (v as u16);
        let sub = a.wrapping_sub(v);
        let zero_flag = sub == 0;
        let ghost f = self.work_registers@[6];
        self.set_flags(zero_flag, true, halfcarry_flag, carry_flag);
        self.clear_flags(!zero_flag, false, !halfcarry_flag, !carry_flag);
        proof {
            lemma_set_then_clear(f, zero_flag, true, halfcarry_flag, carry_flag, !zero_flag, false, !halfcarry_flag, !carry_flag);
        }
        assert(self@ =~= old(self)@.alu_cp(v));
    }
}

impl Cpu {
    /// `ADD A, r8`.
    pub(crate) fn add_a_r8(&mut self, bits_210: u8) -> (cycles: u8)
        requires
            old(self).inv(),
            bits_210 < 8,
        ensures
            final(self)@ == old(self)@.alu_r8(0, bits_210).0,
            cycles == old(self)@.alu_r8(0, bits_210).1,
            final(self).inv(),
    {
        let cycles: u8 = if bits_210 == 0b110 { 2 } else { 1 };
        let v = self.r8_operand(bits_210);
        self.op_add(v);
        self.program_counter = self.program_counter.wrapping_add(1);
        cycles
    }

    /// `ADC A, r8`.
    pub(crate) fn adc_a_r8(&mut self, bits_210: u8) -> (cycles: u8)
        requires
            old(self).inv(),
            bits_210 < 8,
        ensures
            final(self)@ == old(self)@.alu_r8(1, bits_210).0,
            cycles == old(self)@.alu_r8(1, bits_210).1,
            final(self).inv(),
    {
        let cycles: u8 = if bits_210 == 0b110 { 2 } else { 1 };
        let v = self.r8_operand(bits_210);
        self.op_adc(v);
        self.program_counter = self.program_counter.wrapping_add(1);
        cycles
    }

    /// `SUB A, r8`.
    pub(crate) fn sub_a_r8(&mut self, bits_210: u8) -> (cycles: u8)
        requires
            old(self).inv(),
            bits_210 < 8,
        ensures
            final(self)@ == old(self)@.alu_r8(2, bits_210).0,
            cycles == old(self)@.alu_r8(2, bits_210).1,
            final(self).inv(),
    {
        let cycles: u8 = if bits_210 == 0b110 { 2 } else { 1 };
        let v = self.r8_operand(bits_210);
        self.op_sub(v);
        self.program_counter = self.program_counter.wrapping_add(1);
        cycles
    }

    /// `SBC A, r8`.
    pub(crate) fn sbc_a_r8(&mut self, bits_210: u8) -> (cycles: u8)
        requires
            old(self).inv(),
            bits_210 < 8,
        ensures
            final(self)@ == old(self)@.alu_r8(3, bits_210).0,
            cycles == old(self)@.alu_r8(3, bits_210).1,
            final(self).inv(),
    {
        let cycles: u8 = if bits_210 == 0b110 { 2 } else { 1 };
        let v = self.r8_operand(bits_210);
        self.op_sbc(v);
        self.program_counter = self.program_counter.wrapping_add(1);
        cycles
    }

    /// `AND A, r8`.
    pub(crate) fn and_a_r8(&mut self, bits_210: u8) -> (cycles: u8)
        requires
            old(self).inv(),
            bits_210 < 8,
        ensures
            final(self)@ == old(self)@.alu_r8(4, bits_210).0,
            cycles == old(self)@.alu_r8(4, bits_210).1,
            final(self).inv(),
    {
        let cycles: u8 = if bits_210 == 0b110 { 2 } else { 1 };
        let v = self.r8_operand(bits_210);
        self.op_and(v);
        self.program_counter = self.program_counter.wrapping_add(1);
        cycles
    }

    /// `XOR A, r8`.
    pub(crate) fn xor_a_r8(&mut self, bits_210: u8) -> (cycles: u8)
        requires
            old(self).inv(),
            bits_210 < 8,
        ensures
            final(self)@ == old(self)@.alu_r8(5, bits_210).0,
            cycles == old(self)@.alu_r8(5, bits_210).1,
            final(self).inv(),
    {
        let cycles: u8 = if bits_210 == 0b110 { 2 } else { 1 };
        let v = self.r8_operand(bits_210);
        self.op_xor(v);
        self.program_counter = self.program_counter.wrapping_add(1);
        cycles
    }

    /// `OR A, r8`.
    pub(crate) fn or_a_r8(&mut self, bits_210: u8) -> (cycles: u8)
        requires
            old(self).inv(),
            bits_210 < 8,
        ensures
            final(self)@ == old(self)@.alu_r8(6, bits_210).0,
            cycles == old(self)@.alu_r8(6, bits_210).1,
            final(self).inv(),
    {
        let cycles: u8 = if bits_210 == 0b110 { 2 } else { 1 };
        let v = self.r8_operand(bits_210);
        self.op_or(v);
        self.program_counter = self.program_counter.wrapping_add(1);
        cycles
    }

    /// `CP A, r8`.
    pub(crate) fn cp_r8(&mut self, bits_210: u8) -> (cycles: u8)
        requires
            old(self).inv(),
            bits_210 < 8,
        ensures
            final(self)@ == old(self)@.alu_r8(7, bits_210).0,
            cycles == old(self)@.alu_r8(7, bits_210).1,
            final(self).inv(),
    {
        let cycles: u8 = if bits_210 == 0b110 { 2 } else { 1 };
        let v = self.r8_operand(bits_210);
        self.op_cp(v);
        self.program_counter = self.program_counter.wrapping_add(1);
        cycles
    }

    /// `op A, imm8` for the operation in bits 5-3.
    pub(crate) fn alu_a_imm8(&mut self, bits_543: u8) -> (cycles: u8)
        requires
            old(self).inv(),
            bits_543 < 8,
            old(self).program_counter < usize::MAX,
        ensures
            final(self)@ == old(self)@.alu_imm8(bits_543).0,
            cycles == old(self)@.alu_imm8(bits_543).1,
            final(self).inv(),
    {
        let imm8 = self.memory.read_byte((self.program_counter + 1) as u16);
        if bits_543 == 0b000 {
            self.op_add(imm8);
        } else if bits_543 == 0b001 {
            self.op_adc(imm8);
        } else if bits_543 == 0b010 {
            self.op_sub(imm8);
        } else if bits_543 == 0b011 {
            self.op_sbc(imm8);
        } else if bits_543 == 0b100 {
            self.op_and(imm8);
        } else if bits_543 == 0b101 {
            self.op_xor(imm8);
        } else if bits_543 == 0b110 {
            self.op_or(imm8);
        } else {
            self.op_cp(imm8);
        }
        self.program_counter = self.program_counter.wrapping_add(2);
        2
    }

    /// The adjustment of DAA.
    #[verifier::spinoff_prover]
    fn daa_value(a0: u8, n_flag: bool, h_flag: bool, c_flag: bool) -> (out: (u8, bool))
        ensures
            out == CpuState::daa_adjust(a0, n_flag, h_flag, c_flag),
    {
        let mut a = a0;
        let mut new_carry = false;
        if !n_flag {
            if c_flag || a > 0x99 {
                a = a.wrapping_add(0x60);
                new_carry = true;
            }
            proof {
                lemma_low_nibble(a);
            }
            if h_flag || (a & 0x0F) > 9 {
                a = a.wrapping_add(0x06);
            }
        } else {
            if c_flag {
                a = a.wrapping_sub(0x60);
                new_carry = true;
            }
            if h_flag {
                a = a.wrapping_sub(0x06);
            }
        }
        (a, new_carry)
    }

    /// `DAA`.
    pub(crate) fn daa(&mut self) -> (cycles: u8)
        requires
            old(self).inv(),
        ensures
            final(self)@ == old(self)@.daa().0,
            cycles == old(self)@.daa().1,
            final(self).inv(),
    {
        let f = self.work_registers[6];
        let n_flag = f & 0b01000000 != 0;
        let h_flag = f & 0b00100000 != 0;
        let c_flag = f & 0b00010000 != 0;
        let (a, new_carry) = Self::daa_value(self.work_registers[7], n_flag, h_flag, c_flag);
        self.work_registers[7] = a;
        let zero_flag = a == 0;
        self.set_flags(zero_flag, false, false, new_carry);
        self.clear_flags(!zero_flag, false, true, !new_carry);
        proof {
            lemma_set_then_clear(f, zero_flag, false, false, new_carry, !zero_flag, false, true, !new_carry);
        }
        self.program_counter = self.program_counter.wrapping_add(1);
        assert(self@ =~= old(self)@.daa().0);
        1
    }
}

} // verus!
