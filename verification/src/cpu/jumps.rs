//! Jumps, calls, returns and restarts.

use super::{law_push_then_pop, lemma_push_writes, lemma_word_bytes, stack_is_plain, Cpu, CpuState, R16_HL};
use vstd::prelude::*;

verus! {

impl CpuState {
    /// `CALL imm16`: pushes the address after the instruction and jumps.
    /// 3 bytes, 6 cycles.
    pub open spec fn call_imm16(self) -> (CpuState, u8) {
        let (target, s) = self.operand16();
        (s.push(self.pc.wrapping_add(3) as u16).jump(target as usize), 6u8)
    }

    /// `CALL cc, imm16`: 6 cycles when taken, else 3.
    pub open spec fn call_cond_imm16(self, bits_543: u8) -> (CpuState, u8) {
        if self.condition(bits_543) {
            self.call_imm16()
        } else {
            (self.advance(3), 3u8)
        }
    }

    /// `RET`: pops the program counter.  4 cycles.
    pub open spec fn ret(self) -> (CpuState, u8) {
        let (target, s) = self.pop();
        (s.jump(target as usize), 4u8)
    }

    /// `RETI`: enables interrupts and returns.
    pub open spec fn reti(self) -> (CpuState, u8) {
        CpuState { ime: true, ..self }.ret()
    }

    /// `RET cc`: 5 cycles when taken, else 2.
    pub open spec fn ret_cond(self, bits_543: u8) -> (CpuState, u8) {
        if self.condition(bits_543) {
            (self.ret().0, 5u8)
        } else {
            (self.advance(1), 2u8)
        }
    }

    /// `JP imm16`: 4 cycles.
    pub open spec fn jp_imm16(self) -> (CpuState, u8) {
        let (target, s) = self.operand16();
        (s.jump(target as usize), 4u8)
    }

    /// `JP cc, imm16`: 4 cycles when taken, else 3.
    pub open spec fn jp_cond_imm16(self, bits_543: u8) -> (CpuState, u8) {
        if self.condition(bits_543) {
            self.jp_imm16()
        } else {
            (self.advance(3), 3u8)
        }
    }

    /// `JP HL`: 1 cycle.
    pub open spec fn jp_hl(self) -> (CpuState, u8) {
        (self.jump(self.hl() as usize), 1u8)
    }

    /// `RST n`: calls address `8 * n`.  4 cycles.
    pub open spec fn rst(self, bits_543: u8) -> (CpuState, u8) {
        (self.push(self.pc.wrapping_add(1) as u16).jump((bits_543 * 8) as usize), 4u8)
    }

    /// `JR e8`: jumps relative to the end of the 2-byte instruction.
    /// 3 cycles.
    pub open spec fn jr_imm8(self) -> (CpuState, u8) {
        let (b, s) = self.operand(1);
        (s.jump(((self.pc as i32) + 2 + ((b as i8) as i32)) as usize), 3u8)
    }

    /// `JR cc, e8`: 3 cycles when taken, else 2.
    pub open spec fn jr_cond_imm8(self, bits_543: u8) -> (CpuState, u8) {
        if self.condition(bits_543) {
            self.jr_imm8()
        } else {
            (self.advance(2), 2u8)
        }
    }
}


/// `RET` right after `CALL imm16` with the stack in plain memory comes back
/// to the instruction after the call, with the stack pointer and the
/// registers as before.
pub proof fn law_call_then_ret(s: CpuState)
    requires
        s.inv(),
        stack_is_plain(s),
        s.pc + 3 <= usize::MAX,
    ensures
        s.call_imm16().0.ret().0.pc == (s.pc + 3) % 0x10000,
        s.call_imm16().0.ret().0.sp == s.sp,
        s.call_imm16().0.ret().0.regs == s.regs,
{
    let (target, s1) = s.operand16();
    assert(s1.sp == s.sp && s1.regs == s.regs && s1.mem.ppu_mode == s.mem.ppu_mode);
    assert(s1.inv());
    let ret_addr = s.pc.wrapping_add(3) as u16;
    law_push_then_pop(s1, ret_addr);
    let w = s.pc.wrapping_add(3);
    assert(w == s.pc + 3);
    assert(w as u16 == w % 0x10000) by (bit_vector);
}

/// `RET` comes back to the instruction after a `CALL imm16` whenever the
/// stack is as the call left it: from any later state whose stack pointer is
/// the one after the call and whose two stack bytes still hold what the call
/// pushed (on plain memory), `RET` jumps to the call's address plus 3 (in 16
/// bits), restores the stack pointer of before the call, and takes 4 cycles.
pub proof fn law_ret_returns_after_call(s: CpuState, t: CpuState)
    requires
        s.inv(),
        stack_is_plain(s),
        s.pc + 3 <= usize::MAX,
        t.inv(),
        t.sp == s.call_imm16().0.sp,
        t.mem.read_value(t.sp) == s.call_imm16().0.mem.read_value(t.sp),
        t.mem.read_value(t.sp.wrapping_add(1)) == s.call_imm16().0.mem.read_value(t.sp.wrapping_add(1)),
    ensures
        t.ret().0.pc == (s.pc + 3) % 0x10000,
        t.ret().0.sp == s.sp,
        t.ret().1 == 4,
{
    let (target, s1) = s.operand16();
    assert(s1.sp == s.sp && s1.regs == s.regs && s1.mem.ppu_mode == s.mem.ppu_mode);
    assert(s1.inv());
    let ret_addr = s.pc.wrapping_add(3) as u16;
    lemma_push_writes(s1, ret_addr);
    lemma_word_bytes(ret_addr);
    assert(t.sp.wrapping_add(1) == s.sp.wrapping_sub(1));
    assert(s.sp.wrapping_sub(1).wrapping_add(1) == s.sp);
    let w = s.pc.wrapping_add(3);
    assert(w == s.pc + 3);
    assert(w as u16 == w % 0x10000) by (bit_vector);
}

impl Cpu {
    /// `CALL imm16`.
    pub(crate) fn call_imm16(&mut self) -> (cycles: u8)
        requires
            old(self).inv(),
            old(self).program_counter + 2 <= usize::MAX,
        ensures
            final(self)@ == old(self)@.call_imm16().0,
            cycles == old(self)@.call_imm16().1,
            final(self).inv(),
    {
        let target = self.read_imm16();
        let return_addr = (self.program_counter.wrapping_add(3)) as u16;
        self.push_word(return_addr);
        self.program_counter = target as usize;
        6
    }

    /// `CALL cc, imm16`.
    pub(crate) fn call_cond_imm16(&mut self, bits_543: u8) -> (cycles: u8)
        requires
            old(self).inv(),
            old(self).program_counter + 2 <= usize::MAX,
        ensures
            final(self)@ == old(self)@.call_cond_imm16(bits_543).0,
            cycles == old(self)@.call_cond_imm16(bits_543).1,
            final(self).inv(),
    {
        if self.check_condition(bits_543) {
            return self.call_imm16();
        }
        self.program_counter = self.program_counter.wrapping_add(3);
        3
    }

    /// `RET`.
    pub(crate) fn ret(&mut self) -> (cycles: u8)
        requires
            old(self).inv(),
        ensures
            final(self)@ == old(self)@.ret().0,
            cycles == old(self)@.ret().1,
            final(self).inv(),
    {
        let target = self.pop_word();
        self.program_counter = target as usize;
        4
    }

    /// `RETI`.
    pub(crate) fn reti(&mut self) -> (cycles: u8)
        requires
            old(self).inv(),
        ensures
            final(self)@ == old(self)@.reti().0,
            cycles == old(self)@.reti().1,
            final(self).inv(),
    {
        self.ime = true;
        self.ret()
    }

    /// `RET cc`.
    pub(crate) fn ret_cond(&mut self, bits_543: u8) -> (cycles: u8)
        requires
            old(self).inv(),
        ensures
            final(self)@ == old(self)@.ret_cond(bits_543).0,
            cycles == old(self)@.ret_cond(bits_543).1,
            final(self).inv(),
    {
        if self.check_condition(bits_543) {
            return self.ret().saturating_add(1);
        }
        self.program_counter = self.program_counter.wrapping_add(1);
        2
    }

    /// `JP imm16`.
    pub(crate) fn jp_imm16(&mut self) -> (cycles: u8)
        requires
            old(self).inv(),
            old(self).program_counter + 2 <= usize::MAX,
        ensures
            final(self)@ == old(self)@.jp_imm16().0,
            cycles == old(self)@.jp_imm16().1,
            final(self).inv(),
    {
        let target = self.read_imm16();
        self.program_counter = target as usize;
        4
    }

    /// `JP cc, imm16`.
    pub(crate) fn jp_cond_imm16(&mut self, bits_543: u8) -> (cycles: u8)
        requires
            old(self).inv(),
            old(self).program_counter + 2 <= usize::MAX,
        ensures
            final(self)@ == old(self)@.jp_cond_imm16(bits_543).0,
            cycles == old(self)@.jp_cond_imm16(bits_543).1,
            final(self).inv(),
    {
        if self.check_condition(bits_543) {
            return self.jp_imm16();
        }
        self.program_counter = self.program_counter.wrapping_add(3);
        3
    }

    /// `JP HL`.
    pub(crate) fn jp_hl(&mut self) -> (cycles: u8)
        ensures
            final(self)@ == old(self)@.jp_hl().0,
            cycles == old(self)@.jp_hl().1,
            final(self).inv() == old(self).inv(),
    {
        self.program_counter = self.get_r16(R16_HL) as usize;
        1
    }

    /// `RST n`.
    pub(crate) fn rst(&mut self, bits_543: u8) -> (cycles: u8)
        requires
            old(self).inv(),
            bits_543 < 8,
        ensures
            final(self)@ == old(self)@.rst(bits_543).0,
            cycles == old(self)@.rst(bits_543).1,
            final(self).inv(),
    {
        let vector = (bits_543 as u16) * 8;
        let return_addr = (self.program_counter.wrapping_add(1)) as u16;
        self.push_word(return_addr);
        self.program_counter = vector as usize;
        4
    }

    /// `JR e8`.
    pub(crate) fn jr_imm8(&mut self) -> (cycles: u8)
        requires
            old(self).inv(),
            CpuState::pc_fits(old(self).program_counter),
        ensures
            final(self)@ == old(self)@.jr_imm8().0,
            cycles == old(self)@.jr_imm8().1,
            final(self).inv(),
    {
        let offset = self.memory.read_byte((self.program_counter + 1) as u16) as i8;
        self.program_counter = ((self.program_counter as i32) + 2 + (offset as i32)) as usize;
        3
    }

    /// `JR cc, e8`.
    pub(crate) fn jr_cond_imm8(&mut self, bits_543: u8) -> (cycles: u8)
        requires
            old(self).inv(),
            CpuState::pc_fits(old(self).program_counter),
        ensures
            final(self)@ == old(self)@.jr_cond_imm8(bits_543).0,
            cycles == old(self)@.jr_cond_imm8(bits_543).1,
            final(self).inv(),
    {
        if self.check_condition(bits_543) {
            return self.jr_imm8();
        }
        self.program_counter = self.program_counter.wrapping_add(2);
        2
    }
}

} // verus!
