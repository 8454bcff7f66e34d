//! Rotations of the accumulator, flag instructions and HALT.

use super::{lemma_clear_only, lemma_flags_with_bits, lemma_set_only, lemma_set_then_clear, Cpu, CpuState};
use vstd::prelude::*;

verus! {

/// Shifting left by one and putting `bit` in bit 0.
pub open spec fn shl_in(a: u8, bit: bool) -> u8 {
    ((a * 2) % 256 + (if bit { 1int } else { 0 })) as u8
}

/// Shifting right by one and putting `bit` in bit 7.
pub open spec fn shr_in(a: u8, bit: bool) -> u8 {
    (a / 2 + (if bit { 128int } else { 0 })) as u8
}

/// The shift identities behind the rotations.
pub proof fn lemma_shifts(a: u8, bit: bool)
    ensures
        (a << 1) | (if bit { 1u8 } else { 0u8 }) == shl_in(a, bit),
        (a >> 1) | (if bit { 0x80u8 } else { 0u8 }) == shr_in(a, bit),
        (a & 0x80 != 0) == (a >= 128),
        (a & 1 != 0) == (a % 2 == 1),
{
    assert((a << 1) | (if bit { 1u8 } else { 0u8 }) == ((a * 2) % 256 + (if bit { 1u8 } else { 0u8 }))
        as u8 && (a >> 1) | (if bit { 0x80u8 } else { 0u8 }) == (a / 2 + (if bit { 128u8 } else { 0u8 }))
        as u8 && (a & 0x80 != 0) == (a >= 128) && (a & 1 != 0) == (a % 2 == 1)) by (bit_vector);
}

impl CpuState {
    /// A rotation of A: Z, N and H cleared, C from the bit shifted out.
    pub open spec fn rotate_a(self, result: u8, carry: bool) -> (CpuState, u8) {
        (self.set_reg(7, result).with_flags(false, false, false, carry).advance(1), 1u8)
    }

    /// `RLCA`: bit 7 goes to bit 0 and to C.
    pub open spec fn rlca(self) -> (CpuState, u8) {
        let a = self.a();
        self.rotate_a(shl_in(a, a >= 128), a >= 128)
    }

    /// `RRCA`: bit 0 goes to bit 7 and to C.
    pub open spec fn rrca(self) -> (CpuState, u8) {
        let a = self.a();
        self.rotate_a(shr_in(a, a % 2 == 1), a % 2 == 1)
    }

    /// `RLA`: the old C goes to bit 0, bit 7 to C.
    pub open spec fn rla(self) -> (CpuState, u8) {
        let a = self.a();
        self.rotate_a(shl_in(a, self.flag_c()), a >= 128)
    }

    /// `RRA`: the old C goes to bit 7, bit 0 to C.
    pub open spec fn rra(self) -> (CpuState, u8) {
        let a = self.a();
        self.rotate_a(shr_in(a, self.flag_c()), a % 2 == 1)
    }

    /// `CPL`: A = !A, N and H set.
    pub open spec fn cpl(self) -> (CpuState, u8) {
        (self.set_reg(7, !self.a()).with_flags(self.flag_z(), true, true, self.flag_c()).advance(1), 1u8)
    }

    /// `SCF`: C set, N and H cleared.
    pub open spec fn scf(self) -> (CpuState, u8) {
        (self.with_flags(self.flag_z(), false, false, true).advance(1), 1u8)
    }

    /// `CCF`: C complemented, N and H cleared.
    pub open spec fn ccf(self) -> (CpuState, u8) {
        (self.with_flags(self.flag_z(), false, false, !self.flag_c()).advance(1), 1u8)
    }

    /// `HALT`: with IME off and an interrupt pending (IF & IE nonzero) the
    /// processor does not halt but the next opcode byte is read twice (the
    /// halt bug); otherwise it halts.
    pub open spec fn halt(self) -> (CpuState, u8) {
        let (requested, s1) = self.read(0xFF0F);
        let (enabled, s2) = s1.read(0xFFFF);
        let s3 = if !s2.ime && requested & enabled != 0 {
            CpuState { halt_bug: true, ..s2 }
        } else {
            CpuState { halted: true, ..s2 }
        };
        (s3.advance(1), 1u8)
    }
}

impl Cpu {
    /// Stores a rotated A and its flags.
    fn finish_rotate(&mut self, result: u8, carry_flag: bool)
        ensures
            final(self)@ == old(self)@.rotate_a(result, carry_flag).0,
            final(self).inv() == old(self).inv(),
    {
        self.work_registers[7] = result;
        let ghost f = self.work_registers@[6];
        self.set_flags(false, false, false, carry_flag);
        self.clear_flags(true, true, true, !carry_flag);
        proof {
            lemma_set_then_clear(f, false, false, false, carry_flag, true, true, true, !carry_flag);
        }
        self.program_counter = self.program_counter.wrapping_add(1);
        assert(self@ =~= old(self)@.rotate_a(result, carry_flag).0);
    }

    /// `RLCA`.
    pub(crate) fn rlca(&mut self) -> (cycles: u8)
        ensures
            final(self)@ == old(self)@.rlca().0,
            cycles == old(self)@.rlca().1,
            final(self).inv() == old(self).inv(),
    {
        let a = self.work_registers[7];
        let carry_flag = (a & 0b10000000) != 0;
        proof {
            lemma_shifts(a, carry_flag);
        }
        let result = (a << 1) | (if carry_flag { 1u8 } else { 0u8 });
        self.finish_rotate(result, carry_flag);
        1
    }

    /// `RRCA`.
    pub(crate) fn rrca(&mut self) -> (cycles: u8)
        ensures
            final(self)@ == old(self)@.rrca().0,
            cycles == old(self)@.rrca().1,
            final(self).inv() == old(self).inv(),
    {
        let a = self.work_registers[7];
        let carry_flag = (a & 1) != 0;
        proof {
            lemma_shifts(a, carry_flag);
        }
        let result = (a >> 1) | (if carry_flag { 0x80u8 } else { 0u8 });
        self.finish_rotate(result, carry_flag);
        1
    }

    /// `RLA`.
    pub(crate) fn rla(&mut self) -> (cycles: u8)
        ensures
            final(self)@ == old(self)@.rla().0,
            cycles == old(self)@.rla().1,
            final(self).inv() == old(self).inv(),
    {
        let a = self.work_registers[7];
        let new_carry_flag = (a & 0b10000000) != 0;
        let old_carry_flag = (self.work_registers[6] & 0b00010000) != 0;
        proof {
            lemma_shifts(a, old_carry_flag);
        }
        let result = (a << 1) | (if old_carry_flag { 1u8 } else { 0u8 });
        self.finish_rotate(result, new_carry_flag);
        1
    }

    /// `RRA`.
    pub(crate) fn rra(&mut self) -> (cycles: u8)
        ensures
            final(self)@ == old(self)@.rra().0,
            cycles == old(self)@.rra().1,
            final(self).inv() == old(self).inv(),
    {
        let a = self.work_registers[7];
        let new_carry_flag = (a & 1) != 0;
        let old_carry_flag = (self.work_registers[6] & 0b00010000) != 0;
        proof {
            lemma_shifts(a, old_carry_flag);
        }
        let result = (a >> 1) | (if old_carry_flag { 0x80u8 } else { 0u8 });
        self.finish_rotate(result, new_carry_flag);
        1
    }

    /// `CPL`.
    pub(crate) fn cpl(&mut self) -> (cycles: u8)
        ensures
            final(self)@ == old(self)@.cpl().0,
            cycles == old(self)@.cpl().1,
            final(self).inv() == old(self).inv(),
    {
        self.work_registers[7] = !self.work_registers[7];
        let ghost f = self.work_registers@[6];
        self.set_flags(false, true, true, false);
        proof {
            lemma_set_only(f, false, true, true, false);
        }
        self.program_counter = self.program_counter.wrapping_add(1);
        assert(self@ =~= old(self)@.cpl().0);
        1
    }

    /// `SCF`.
    pub(crate) fn scf(&mut self) -> (cycles: u8)
        ensures
            final(self)@ == old(self)@.scf().0,
            cycles == old(self)@.scf().1,
            final(self).inv() == old(self).inv(),
    {
        let ghost f = self.work_registers@[6];
        self.set_flags(false, false, false, true);
        self.clear_flags(false, true, true, false);
        proof {
            lemma_set_then_clear(f, false, false, false, true, false, true, true, false);
        }
        self.program_counter = self.program_counter.wrapping_add(1);
        assert(self@ =~= old(self)@.scf().0);
        1
    }

    /// `CCF`.
    pub(crate) fn ccf(&mut self) -> (cycles: u8)
        ensures
            final(self)@ == old(self)@.ccf().0,
            cycles == old(self)@.ccf().1,
            final(self).inv() == old(self).inv(),
    {
        let ghost f = self.work_registers@[6];
        let carry = self.work_registers[6] & 0b00010000 != 0;
        if carry {
            self.clear_flags(false, false, false, true);
            proof {
                lemma_clear_only(f, false, false, false, true);
            }
        } else {
            self.set_flags(false, false, false, true);
            proof {
                lemma_set_only(f, false, false, false, true);
            }
        }
        let ghost g = self.work_registers@[6];
        proof {
            lemma_flags_with_bits(f, f & 0x80 != 0, f & 0x40 != 0, f & 0x20 != 0, !carry);
        }
        self.clear_flags(false, true, true, false);
        proof {
            lemma_clear_only(g, false, true, true, false);
            assert((g & 0x0F) == (f & 0x0F));
        }
        self.program_counter = self.program_counter.wrapping_add(1);
        assert(self@ =~= old(self)@.ccf().0);
        1
    }

    /// `HALT`.
    pub(crate) fn halted(&mut self) -> (cycles: u8)
        requires
            old(self).inv(),
        ensures
            final(self)@ == old(self)@.halt().0,
            cycles == old(self)@.halt().1,
            final(self).inv(),
    {
        let requested = self.memory.read_byte(0xFF0F);
        let enabled = self.memory.read_byte(0xFFFF);
        let pending = requested & enabled;
        if !self.ime && pending != 0 {
            self.halt_bug = true;
        } else {
            self.halted = true;
        }
        self.program_counter = self.program_counter.wrapping_add(1);
        1
    }
}

} // verus!
