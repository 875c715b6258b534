use vstd::prelude::*;

verus! {

/// One kilohertz.
pub const KHZ: u16 = 1000;

/// One megahertz.
pub const MHZ: u32 = 1_000_000;

/// The APB1 clock that drives TIM6: 8 MHz.
pub const CLOCK_FREQ: u32 = 8_000_000;

/// The tick rate the timer is set up for: one tick per millisecond.
pub const TICK_HZ: u32 = 1000;

/// Number of LEDs in the chase.
pub const CHASE_LEDS: usize = 8;

/// How long each step of the chase waits, in milliseconds (timer ticks).
pub const CHASE_DELAY_MS: u16 = 50;

/// The TIM6 prescaler (PSC) value for a clock of `clock_freq` Hz: the
/// counter then advances `clock_freq / (psc + 1)` times per second, and the
/// prescaler is `clock_freq / 1000 - 1`, when `clock_freq / 1000` fits in `u16`.
pub open spec fn prescaler_for(clock_freq: u32) -> Option<u16> {
    if clock_freq / 1000 <= u16::MAX {
        Some((clock_freq / 1000 - 1) as u16)
    } else {
        None
    }
}

/// The prescaler value for a 1 kHz counter on a `clock_freq` Hz clock;
/// `None` when `clock_freq / 1000` does not fit in the 16-bit register.
pub fn tim6_prescaler(clock_freq: u32) -> (r: Option<u16>)
    requires
        clock_freq >= 1000,
    ensures
        r == prescaler_for(clock_freq),
        r is Some <==> clock_freq / 1000 <= 0xffff,
        r matches Some(psc) ==> psc + 1 == clock_freq / 1000,
{
    let ticks_divider = clock_freq / TICK_HZ;
    if ticks_divider <= 0xffff {
        Some((ticks_divider as u16) - 1)
    } else {
        None
    }
}

/// One step of the chase: light `turn_on`, wait, switch off `turn_off`, wait.
#[derive(Clone, Copy, Debug, PartialEq, Eq, Structural)]
pub struct ChaseStep {
    pub turn_on: usize,
    pub turn_off: usize,
}

/// The LED after LED `i` around the ring of eight.
pub open spec fn chase_next(i: int) -> int {
    (i + 1) % 8
}

/// Step `curr` (0 to 7) of a chase lap: light the next LED, then switch off
/// LED `curr`.
pub fn chase_step(curr: usize) -> (r: ChaseStep)
    requires
        curr < CHASE_LEDS,
    ensures
        r.turn_on == chase_next(curr as int),
        r.turn_on == (curr + 1) % 8,
        r.turn_off == curr,
        r.turn_on < CHASE_LEDS,
{
    let next = (curr + 1) % CHASE_LEDS;
    ChaseStep { turn_on: next, turn_off: curr }
}

/// For a clock that is a whole number of kilohertz, and whose kilohertz fit
/// the prescaler register, the counter ticks exactly 1000 times per second.
pub proof fn lemma_prescaler_gives_millisecond_ticks(clock_freq: u32)
    requires
        clock_freq >= 1000,
        clock_freq % 1000 == 0,
        clock_freq / 1000 <= u16::MAX,
    ensures
        prescaler_for(clock_freq) is Some,
        clock_freq as int / (prescaler_for(clock_freq)->0 as int + 1) == TICK_HZ as int,
{
    let k: int = clock_freq as int / 1000;
    assert(clock_freq as int == 1000 * k);
    assert(prescaler_for(clock_freq)->0 as int + 1 == k);
    assert((1000 * k) / k == 1000) by (nonlinear_arith)
        requires
            k > 0,
    ;
}

/// In one lap of the chase every LED is lit exactly once and switched off
/// exactly once.
pub proof fn lemma_chase_lap_covers_every_led(j: int)
    requires
        0 <= j < 8,
    ensures
        exists|c: int| 0 <= c < 8 && chase_next(c) == j,
        forall|c1: int, c2: int|
            0 <= c1 < 8 && 0 <= c2 < 8 && chase_next(c1) == j && chase_next(c2) == j ==> c1 == c2,
{
    let c = if j == 0 {
        7
    } else {
        j - 1
    };
    assert(chase_next(c) == j);
}

/// The prescaler exists exactly when the clock's kilohertz fit the 16-bit
/// register, and then the prescaler plus one is that number of kilohertz, so
/// the counter advances `clock_freq / (psc + 1)` times per second: 1000 for a
/// whole number of kilohertz, within one tick's rounding otherwise.
pub proof fn lemma_prescaler_divides_to_khz(clock_freq: u32)
    requires
        clock_freq >= 1000,
    ensures
        prescaler_for(clock_freq) is Some <==> clock_freq / 1000 <= 0xffff,
        prescaler_for(clock_freq) matches Some(psc) ==> psc as int + 1 == clock_freq as int / 1000
            && 1000 * (psc as int + 1) <= clock_freq < 1000 * (psc as int + 2),
{
}

/// Each step lights the LED right after the current one round the ring: the
/// LED before the lit one is the current LED, and no step lights the LED it
/// switches off.
pub proof fn lemma_chase_moves_one_place(c: int)
    requires
        0 <= c < 8,
    ensures
        0 <= chase_next(c) < 8,
        (chase_next(c) + 7) % 8 == c,
        chase_next(c) != c,
        c < 7 ==> chase_next(c) == c + 1,
        c == 7 ==> chase_next(c) == 0,
{
}

} // verus!
