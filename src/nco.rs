use vstd::prelude::*;

verus! {

/// Chips in one period of the C/A code.
pub const CODE_LENGTH: u64 = 1023;

/// One chip in code-phase units: the code NCO keeps 32 fractional bits.
pub const CHIP: u64 = 0x1_0000_0000;

/// One full period of the code NCO, in code-phase units.
pub const CODE_PERIOD: u64 = 1023 * 0x1_0000_0000;

/// One full turn of the carrier NCO: its 32-bit accumulator wraps here.
pub const CARRIER_TURN: u64 = 0x1_0000_0000;

/// The carrier phase `n` increments of `step` after `phase`.
pub open spec fn carrier_after(phase: u32, step: u32, n: int) -> u32 {
    ((phase + n * step) % (CARRIER_TURN as int)) as u32
}

/// The code phase `n` increments of `step` after `phase`.
pub open spec fn code_after(phase: u64, step: u64, n: int) -> u64 {
    ((phase + n * step) % (CODE_PERIOD as int)) as u64
}

/// Advances the carrier NCO by one sample: the accumulator wraps modulo 2^32,
/// which is one full turn.
pub fn advance_carrier(phase: u32, step: u32) -> (r: u32)
    ensures
        r == carrier_after(phase, step, 1),
{
    let s: u64 = phase as u64 + step as u64;
    (s % 0x1_0000_0000) as u32
}

/// Advances the code NCO by one sample: the phase, with 32 fractional bits
/// per chip, wraps modulo 1023 chips.
pub fn advance_code(phase: u64, step: u64) -> (r: u64)
    requires
        phase < CODE_PERIOD,
        step < CODE_PERIOD,
    ensures
        r == code_after(phase, step, 1),
        r < CODE_PERIOD,
{
    let s: u64 = phase + step;
    if s >= CODE_PERIOD {
        s - CODE_PERIOD
    } else {
        s
    }
}

/// The chip that a code phase points at: its integer part, in `[0, 1023)`.
pub fn code_chip(phase: u64) -> (r: usize)
    requires
        phase < CODE_PERIOD,
    ensures
        r == phase as int / (CHIP as int),
        r < CODE_LENGTH,
{
    (phase / CHIP) as usize
}

/// One more increment of the carrier NCO continues from where `n` left it.
pub proof fn lemma_carrier_step(phase: u32, step: u32, n: nat)
    ensures
        carrier_after(carrier_after(phase, step, n as int), step, 1) == carrier_after(phase, step, n + 1 as int),
{
    let a = phase + n * step;
    assert(phase + (n + 1) * step == a + step) by (nonlinear_arith)
        requires
            a == phase + n * step,
    ;
    assert((a % (CARRIER_TURN as int) + step) % (CARRIER_TURN as int) == (a + step) % (CARRIER_TURN as int)) by {
        vstd::arithmetic::div_mod::lemma_add_mod_noop(a, step as int, (CARRIER_TURN as int));
        vstd::arithmetic::div_mod::lemma_mod_twice(step as int, (CARRIER_TURN as int));
    }
}

/// The carrier NCO wraps exactly every 2^32 increments: after 2^32 more
/// increments of any step it is back where it was, and with a step of one it
/// is back at its start after `n` increments exactly when `n` is a multiple
/// of 2^32.
pub proof fn lemma_carrier_period(phase: u32, step: u32, n: int)
    requires
        n >= 0,
    ensures
        carrier_after(phase, step, n + (CARRIER_TURN as int)) == carrier_after(phase, step, n),
        carrier_after(phase, 1, n) == phase <==> n % (CARRIER_TURN as int) == 0,
{
    assert(phase + (n + (CARRIER_TURN as int)) * step == (phase + n * step) + step * (CARRIER_TURN as int)) by (nonlinear_arith);
    vstd::arithmetic::div_mod::lemma_mod_multiples_vanish(step as int, phase + n * step, (CARRIER_TURN as int));
    vstd::arithmetic::div_mod::lemma_add_mod_noop(phase as int, n, (CARRIER_TURN as int));
    vstd::arithmetic::div_mod::lemma_small_mod(phase as nat, CARRIER_TURN as nat);
}

/// The code NCO stays within one code period: every phase it reaches lies
/// in `[0, 1023)` chips.
pub proof fn lemma_code_in_range(phase: u64, step: u64, n: int)
    ensures
        0 <= code_after(phase, step, n) < CODE_PERIOD,
        0 <= code_after(phase, step, n) as int / (CHIP as int) < CODE_LENGTH,
{
}

} // verus!
