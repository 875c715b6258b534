use vstd::prelude::*;
use vstd::arithmetic::div_mod::{lemma_mod_multiples_vanish, lemma_small_mod, lemma_mod_add_multiples_vanish};
use vstd::arithmetic::mul::lemma_mul_inequality;

verus! {

/// Delay of each step (period) of the roulette, in milliseconds.
pub const STEP_DELAY_MS: u16 = 20;

/// How many periods each LED stays on.
pub const ON_STATE_PERIOD_LEN: usize = 3;

/// By how many periods each LED is shifted against the one before it; the
/// roulette also starts at this period.
pub const PERIOD_SHIFT: usize = 2;

/// The number of periods of one turn: two per LED.
pub open spec fn periods_count(led_count: int) -> int {
    2 * led_count
}

/// The phase of LED `i` in period `p`: `(p + i * (2n - 2)) % 2n` for `n` LEDs.
pub open spec fn led_phase(p: int, i: int, led_count: int) -> int {
    (p + i * (periods_count(led_count) - PERIOD_SHIFT)) % periods_count(led_count)
}

/// LED `i` is on in period `p` when its phase is below `ON_STATE_PERIOD_LEN`.
pub open spec fn led_on(p: int, i: int, led_count: int) -> bool {
    led_phase(p, i, led_count) < ON_STATE_PERIOD_LEN
}

/// The states of all LEDs in period `p`, LED 0 first.
pub open spec fn frame(p: int, led_count: int) -> Seq<bool> {
    Seq::new(led_count as nat, |i: int| led_on(p, i, led_count))
}

/// The period after `p`, wrapping to 0 after the last one.
pub open spec fn period_after(p: int, led_count: int) -> int {
    (p + 1) % periods_count(led_count)
}

/// The LED before LED `i` around the ring of `n` LEDs.
pub open spec fn previous_led(i: int, led_count: int) -> int {
    if i == 0 {
        led_count - 1
    } else {
        i - 1
    }
}

/// The arithmetic of a frame fits in `usize` for period `p` and `n` LEDs.
pub open spec fn frame_fits(p: int, led_count: int) -> bool {
    &&& 2 * led_count <= usize::MAX
    &&& p + (led_count - 1) * (2 * led_count - 2) <= usize::MAX
}

/// The number of periods of one turn for `led_count` LEDs.
pub fn periods_num(led_count: usize) -> (r: usize)
    requires
        2 * led_count <= usize::MAX,
    ensures
        r == periods_count(led_count as int),
{
    2 * led_count
}

/// The phase of LED `led_index` in period `period_index` (see `led_phase`).
pub fn led_value(period_index: usize, led_index: usize, led_count: usize) -> (r: usize)
    requires
        1 <= led_count,
        2 * led_count <= usize::MAX,
        period_index + led_index * (2 * led_count - 2) <= usize::MAX,
    ensures
        r == led_phase(period_index as int, led_index as int, led_count as int),
        r < periods_count(led_count as int),
{
    let periods = 2 * led_count;
    let shift = periods - PERIOD_SHIFT;
    (period_index + led_index * shift) % periods
}

/// The states of the LEDs in one period of the roulette, LED 0 first: LED
/// `i` is on when `led_on(period_index, i, led_count)`. The period index must
/// be below the number of periods.
pub fn roulette_frame(period_index: usize, led_count: usize) -> (r: Vec<bool>)
    requires
        1 <= led_count,
        period_index < periods_count(led_count as int),
        frame_fits(period_index as int, led_count as int),
    ensures
        r@ == frame(period_index as int, led_count as int),
{
    let mut states: Vec<bool> = Vec::new();
    let mut led_index: usize = 0;
    while led_index < led_count
        invariant
            1 <= led_count,
            led_index <= led_count,
            frame_fits(period_index as int, led_count as int),
            states@ == frame(period_index as int, led_count as int).take(led_index as int),
        decreases led_count - led_index,
    {
        proof {
            lemma_mul_inequality(
                led_index as int,
                led_count - 1,
                2 * led_count - 2,
            );
        }
        let value = led_value(period_index, led_index, led_count);
        states.push(value < ON_STATE_PERIOD_LEN);
        led_index = led_index + 1;
        assert(states@ =~= frame(period_index as int, led_count as int).take(led_index as int));
    }
    assert(states@ =~= frame(period_index as int, led_count as int));
    states
}

/// The period after `period_index`, wrapping to 0 after the last one.
pub fn next_period(period_index: usize, led_count: usize) -> (r: usize)
    requires
        period_index < periods_count(led_count as int),
        2 * led_count <= usize::MAX,
    ensures
        r == period_after(period_index as int, led_count as int),
        r < periods_count(led_count as int),
{
    (period_index + 1) % (2 * led_count)
}

/// The phase of LED `i` is `p - 2i` taken modulo the number of periods.
pub proof fn lemma_phase_is_offset(p: int, i: int, led_count: int)
    requires
        led_count >= 1,
    ensures
        led_phase(p, i, led_count) == (p - 2 * i) % periods_count(led_count),
{
    let m = periods_count(led_count);
    assert(p + i * (m - PERIOD_SHIFT) == m * i + (p - 2 * i)) by (nonlinear_arith);
    lemma_mod_multiples_vanish(i, p - 2 * i, m);
}

/// The phase of LED `i` in period `p`, with both in range, written without
/// the modulo.
proof fn lemma_phase_in_range(p: int, i: int, led_count: int)
    requires
        led_count >= 1,
        0 <= p < 2 * led_count,
        0 <= i < led_count,
    ensures
        led_phase(p, i, led_count) == if p >= 2 * i {
            p - 2 * i
        } else {
            p - 2 * i + 2 * led_count
        },
{
    let m = periods_count(led_count);
    lemma_phase_is_offset(p, i, led_count);
    if p >= 2 * i {
        lemma_small_mod((p - 2 * i) as nat, m as nat);
    } else {
        lemma_mod_add_multiples_vanish(p - 2 * i, m);
        lemma_small_mod((p - 2 * i + m) as nat, m as nat);
    }
}

/// In each period of a roulette of two or more LEDs, the LEDs that are on
/// are exactly: in an even period `p`, LED `p / 2` and the LED before it;
/// in an odd period `p`, LED `p / 2` alone.
pub proof fn lemma_lit_leds(p: int, i: int, led_count: int)
    requires
        led_count >= 2,
        0 <= p < periods_count(led_count),
        0 <= i < led_count,
    ensures
        led_on(p, i, led_count) <==> (i == p / 2 || (p % 2 == 0 && i == previous_led(
            p / 2,
            led_count,
        ))),
{
    lemma_phase_in_range(p, i, led_count);
}

/// Each LED stays on for `ON_STATE_PERIOD_LEN` (three) consecutive periods of
/// every turn: LED `i` is on in periods `2i`, `2i + 1` and `2i + 2` (the last
/// one wrapping round to 0 for the last LED), and off in all others.
pub proof fn lemma_on_three_periods(p: int, i: int, led_count: int)
    requires
        led_count >= 2,
        0 <= p < periods_count(led_count),
        0 <= i < led_count,
    ensures
        led_on(p, i, led_count) <==> (p == 2 * i || p == 2 * i + 1 || p == (2 * i + 2) % periods_count(
            led_count,
        )),
{
    lemma_phase_in_range(p, i, led_count);
    let m = periods_count(led_count);
    if 2 * i + 2 < m {
        lemma_small_mod((2 * i + 2) as nat, m as nat);
    } else {
        lemma_mod_add_multiples_vanish(0, m);
        lemma_small_mod(0, m as nat);
    }
}

/// Two periods later every LED shows what the LED before it showed: the lit
/// LEDs move one place round the ring every two periods.
pub proof fn lemma_rotation(p: int, i: int, led_count: int)
    requires
        led_count >= 2,
        0 <= p < periods_count(led_count),
        0 <= i < led_count,
    ensures
        led_on(
            period_after(period_after(p, led_count), led_count),
            i,
            led_count,
        ) == led_on(p, previous_led(i, led_count), led_count),
{
    let m = periods_count(led_count);
    let q = period_after(period_after(p, led_count), led_count);
    let j = previous_led(i, led_count);
    if p + 1 < m {
        lemma_small_mod((p + 1) as nat, m as nat);
    } else {
        assert((p + 1) % m == 0) by {
            lemma_mod_add_multiples_vanish(0, m);
            lemma_small_mod(0, m as nat);
        }
    }
    let p1 = period_after(p, led_count);
    if p1 + 1 < m {
        lemma_small_mod((p1 + 1) as nat, m as nat);
    } else {
        assert((p1 + 1) % m == 0) by {
            lemma_mod_add_multiples_vanish(0, m);
            lemma_small_mod(0, m as nat);
        }
    }
    assert(0 <= q < m);
    lemma_phase_in_range(q, i, led_count);
    lemma_phase_in_range(p, j, led_count);
}

/// Each frame lights one LED in an odd period and two in an even one.
pub proof fn lemma_frame_lights_one_or_two(p: int, led_count: int)
    requires
        led_count >= 2,
        0 <= p < periods_count(led_count),
    ensures
        frame(p, led_count).len() == led_count,
        frame(p, led_count)[p / 2],
        p % 2 == 0 ==> frame(p, led_count)[previous_led(p / 2, led_count)],
        forall|i: int|
            0 <= i < led_count && i != p / 2 && (p % 2 == 1 || i != previous_led(p / 2, led_count))
                ==> !#[trigger] frame(p, led_count)[i],
{
    lemma_lit_leds(p, p / 2, led_count);
    if p % 2 == 0 {
        lemma_lit_leds(p, previous_led(p / 2, led_count), led_count);
    }
    assert forall|i: int|
        0 <= i < led_count && i != p / 2 && (p % 2 == 1 || i != previous_led(p / 2, led_count))
            implies !#[trigger] frame(p, led_count)[i] by {
        lemma_lit_leds(p, i, led_count);
    }
}

/// The period after the last one is 0; every other period is followed by
/// the next one.
pub proof fn lemma_period_after_steps_by_one(p: int, led_count: int)
    requires
        led_count >= 1,
        0 <= p < periods_count(led_count),
    ensures
        p + 1 < 2 * led_count ==> period_after(p, led_count) == p + 1,
        p + 1 == 2 * led_count ==> period_after(p, led_count) == 0,
{
    let m = periods_count(led_count);
    if p + 1 < m {
        lemma_small_mod((p + 1) as nat, m as nat);
    } else {
        lemma_mod_add_multiples_vanish(0, m);
        lemma_small_mod(0, m as nat);
    }
}

} // verus!
