//! The timer: the 16-bit divider counter behind DIV (0xFF04), and TIMA
//! (0xFF05) counting on the falling edges of a divider bit chosen by TAC
//! (0xFF07), reloaded from TMA (0xFF06) with a timer interrupt on overflow.

use crate::memory::{MemState, Memory};
use vstd::prelude::*;

verus! {

/// The divider counter and the last value of the edge detector.
pub struct Timer {
    pub internal_counter: u16,
    pub last_and_result: bool,
}

/// The divider bit that clocks TIMA for the rate in TAC bits 0-1: 4096 Hz
/// (bit 9), 262144 Hz (bit 3), 65536 Hz (bit 5) or 16384 Hz (bit 7).
pub open spec fn tac_bit(tac: u8) -> u16 {
    let rate = tac & 0x03;
    if rate == 0 {
        9
    } else if rate == 1 {
        3
    } else if rate == 2 {
        5
    } else {
        7
    }
}

/// One clock cycle (T-cycle) of the timer.  A pending DIV reset first clears
/// the counter; the counter then counts up and its high byte shows in DIV.
/// TIMA counts when the selected counter bit, gated by the enable bit 2 of
/// TAC, falls; counting past 0xFF reloads TMA and requests the timer
/// interrupt (bit 2 of IF).
pub open spec fn timer_tick(t: Timer, m: MemState) -> (Timer, MemState) {
    let (counter0, m0) = if m.div_reset {
        (0u16, MemState { div_reset: false, ..m })
    } else {
        (t.internal_counter, m)
    };
    let counter = counter0.wrapping_add(1);
    let m1 = m0.set_bus(0xFF04, (counter / 256) as u8);
    let tac = m1.bus[0xFF07];
    let current = (counter >> tac_bit(tac)) & 1 == 1 && tac & 0x04 != 0;
    let m2 = if t.last_and_result && !current {
        let tima = m1.bus[0xFF05];
        if tima == 0xFF {
            m1.set_bus(0xFF05, m1.bus[0xFF06]).set_bus(0xFF0F, m1.bus[0xFF0F] | 0x04)
        } else {
            m1.set_bus(0xFF05, (tima + 1) as u8)
        }
    } else {
        m1
    };
    (Timer { internal_counter: counter, last_and_result: current }, m2)
}

/// `n` clock cycles of the timer.
pub open spec fn timer_ticks(t: Timer, m: MemState, n: nat) -> (Timer, MemState)
    decreases n,
{
    if n == 0 {
        (t, m)
    } else {
        let (t1, m1) = timer_ticks(t, m, (n - 1) as nat);
        timer_tick(t1, m1)
    }
}

/// Bit `b` of a counter, and when it falls, for the four divider bits that
/// clock TIMA.
proof fn lemma_counter_bits(c: u16, n: u16)
    requires
        n == (c + 1) % 0x10000,
    ensures
        ((n >> 9u16) & 1 == 1) == (n % 1024 >= 512),
        ((n >> 3u16) & 1 == 1) == (n % 16 >= 8),
        ((n >> 5u16) & 1 == 1) == (n % 64 >= 32),
        ((n >> 7u16) & 1 == 1) == (n % 256 >= 128),
        (c % 1024 >= 512 && !(n % 1024 >= 512)) == (n % 1024 == 0),
        (c % 16 >= 8 && !(n % 16 >= 8)) == (n % 16 == 0),
        (c % 64 >= 32 && !(n % 64 >= 32)) == (n % 64 == 0),
        (c % 256 >= 128 && !(n % 256 >= 128)) == (n % 256 == 0),
{
    assert(n == (c + 1) as u16) by (bit_vector)
        requires
            n == (c + 1) % 0x10000,
    ;
    assert(((n >> 9u16) & 1 == 1) == (n % 1024 >= 512) && ((n >> 3u16) & 1 == 1) == (n % 16 >= 8) && ((
    n >> 5u16) & 1 == 1) == (n % 64 >= 32) && ((n >> 7u16) & 1 == 1) == (n % 256 >= 128) && (c % 1024
        >= 512 && !(n % 1024 >= 512)) == (n % 1024 == 0) && (c % 16 >= 8 && !(n % 16 >= 8)) == (n % 16
        == 0) && (c % 64 >= 32 && !(n % 64 >= 32)) == (n % 64 == 0) && (c % 256 >= 128 && !(n % 256
        >= 128)) == (n % 256 == 0)) by (bit_vector)
        requires
            n == (c + 1) as u16,
    ;
}

/// The clock cycles between two counts of TIMA for the rate in TAC bits 0-1:
/// 1024 (4096 Hz), 16 (262144 Hz), 64 (65536 Hz) or 256 (16384 Hz).
pub open spec fn tima_period(tac: u8) -> int {
    let rate = tac & 0x03;
    if rate == 0 {
        1024
    } else if rate == 1 {
        16
    } else if rate == 2 {
        64
    } else {
        256
    }
}

/// Whether the edge detector is in step with the divider: it is high exactly
/// when the timer is enabled and the counter is in the second half of a TIMA
/// period.  The timer at power-on (counter 0, detector low) is.
pub open spec fn timer_in_step(t: Timer, tac: u8) -> bool {
    t.last_and_result == (tac & 0x04 != 0 && (t.internal_counter as int) % tima_period(tac) >= tima_period(
        tac,
    ) / 2)
}

/// TIMA counts at the rate TAC selects: from a timer in step with its
/// divider, a clock cycle advances the divider by one (DIV showing its high
/// byte) and keeps the timer in step; TIMA counts exactly when the timer is
/// enabled and the new counter is a multiple of the TIMA period (so once
/// every 1024, 16, 64 or 256 clock cycles), and counting past 0xFF reloads
/// TMA and requests the timer interrupt.
pub proof fn law_timer_rate(t: Timer, m: MemState)
    requires
        m.inv(),
        !m.div_reset,
        timer_in_step(t, m.bus[0xFF07]),
    ensures
        ({
            let tac = m.bus[0xFF07];
            let (t2, m2) = timer_tick(t, m);
            let counts = tac & 0x04 != 0 && (t.internal_counter + 1) % tima_period(tac) == 0;
            let tima = m.bus[0xFF05];
            &&& t2.internal_counter == (t.internal_counter + 1) % 0x10000
            &&& m2.bus[0xFF04] == t2.internal_counter / 256
            &&& timer_in_step(t2, m2.bus[0xFF07])
            &&& m2.bus[0xFF05] == if !counts {
                tima
            } else if tima == 0xFF {
                m.bus[0xFF06]
            } else {
                (tima + 1) as u8
            }
            &&& m2.bus[0xFF0F] == if counts && tima == 0xFF {
                m.bus[0xFF0F] | 0x04
            } else {
                m.bus[0xFF0F]
            }
        }),
{
    let c = t.internal_counter;
    let n = c.wrapping_add(1);
    assert(n == (c + 1) % 0x10000);
    lemma_counter_bits(c, n);
    assert((c + 1) % 1024 == n % 1024 && (c + 1) % 16 == n % 16 && (c + 1) % 64 == n % 64 && (c + 1)
        % 256 == n % 256);
}

/// With TAC's enable bit clear, TIMA and the interrupt requests stay as they
/// are however long the timer runs, the divider counts every clock cycle
/// (from 0 after a DIV reset), and DIV shows its high byte.
pub proof fn law_timer_disabled(t: Timer, m: MemState, n: nat)
    requires
        m.inv(),
        m.bus[0xFF07] & 0x04 == 0,
        !t.last_and_result,
        !m.div_reset,
        n > 0,
    ensures
        timer_ticks(t, m, n).1.bus[0xFF05] == m.bus[0xFF05],
        timer_ticks(t, m, n).1.bus[0xFF0F] == m.bus[0xFF0F],
        timer_ticks(t, m, n).0.internal_counter == (t.internal_counter + n) % 0x10000,
        timer_ticks(t, m, n).1.bus[0xFF04] == timer_ticks(t, m, n).0.internal_counter / 256,
{
    lemma_timer_disabled(t, m, n);
}

/// The induction behind [`law_timer_disabled`].
proof fn lemma_timer_disabled(t: Timer, m: MemState, n: nat)
    requires
        m.inv(),
        m.bus[0xFF07] & 0x04 == 0,
        !t.last_and_result,
        !m.div_reset,
    ensures
        timer_ticks(t, m, n).1.inv(),
        timer_ticks(t, m, n).1.bus[0xFF05] == m.bus[0xFF05],
        timer_ticks(t, m, n).1.bus[0xFF0F] == m.bus[0xFF0F],
        timer_ticks(t, m, n).1.bus[0xFF07] == m.bus[0xFF07],
        !timer_ticks(t, m, n).0.last_and_result,
        !timer_ticks(t, m, n).1.div_reset,
        timer_ticks(t, m, n).0.internal_counter == (t.internal_counter + n) % 0x10000,
        n > 0 ==> timer_ticks(t, m, n).1.bus[0xFF04] == timer_ticks(t, m, n).0.internal_counter / 256,
    decreases n,
{
    if n > 0 {
        lemma_timer_disabled(t, m, (n - 1) as nat);
    }
}

impl Timer {
    /// The timer at power-on: counter at zero, edge detector low.
    pub open spec fn new_state() -> Timer {
        Timer { internal_counter: 0, last_and_result: false }
    }

    /// The timer at power-on.
    pub fn new() -> (timer: Self)
        ensures
            timer == Timer::new_state(),
    {
        Timer { internal_counter: 0, last_and_result: false }
    }

    /// Runs the timer for `m_cycles` machine cycles (4 clock cycles each).
    pub fn step(&mut self, m_cycles: u8, memory: &mut Memory)
        requires
            old(memory).inv(),
        ensures
            (*final(self), final(memory)@) == timer_ticks(*old(self), old(memory)@, (m_cycles * 4) as nat),
            final(memory).inv(),
    {
        let t_cycles = (m_cycles as u16) * 4;
        let mut k: u16 = 0;
        while k < t_cycles
            invariant
                k <= t_cycles,
                t_cycles == m_cycles * 4,
                memory.inv(),
                (*self, memory@) == timer_ticks(*old(self), old(memory)@, k as nat),
            decreases t_cycles - k,
        {
            let ghost before = (*self, memory@);
            if memory.div_reset {
                self.internal_counter = 0;
                memory.div_reset = false;
            }
            self.internal_counter = self.internal_counter.wrapping_add(1);
            let c = self.internal_counter;
            assert((c >> 8) as u8 == c / 256) by (bit_vector);
            memory.address_bus[0xFF04] = (c >> 8) as u8;
            let tac = memory.read_byte(0xFF07);
            let timer_enable = (tac & 0b0000_0100) != 0;
            let bit_position: u16 = if tac & 0b11 == 0b00 {
                9
            } else if tac & 0b11 == 0b01 {
                3
            } else if tac & 0b11 == 0b10 {
                5
            } else {
                7
            };
            let counter = self.internal_counter;
            let bit_selected = (counter & (1u16 << bit_position)) != 0;
            assert(bit_selected == ((counter >> bit_position) & 1 == 1)) by (bit_vector)
                requires
                    bit_selected == ((counter & (1u16 << bit_position)) != 0),
                    bit_position < 16,
            ;
            let current_and_result = bit_selected && timer_enable;
            if self.last_and_result && !current_and_result {
                let tima = memory.read_byte(0xFF05);
                if tima == 0xFF {
                    memory.address_bus[0xFF05] = memory.read_byte(0xFF06);
                    let current_if = memory.read_byte(0xFF0F);
                    memory.address_bus[0xFF0F] = current_if | 0b0000_0100;
                } else {
                    memory.address_bus[0xFF05] = tima + 1;
                }
            }
            self.last_and_result = current_and_result;
            assert((*self, memory@) == timer_tick(before.0, before.1));
            k = k + 1;
        }
    }
}

} // verus!
