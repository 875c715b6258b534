use discovery::roulette::{
    led_value, next_period, periods_num, roulette_frame, ON_STATE_PERIOD_LEN, PERIOD_SHIFT, STEP_DELAY_MS,
};
use discovery::timer::{chase_step, tim6_prescaler, ChaseStep, CLOCK_FREQ, KHZ, MHZ, TICK_HZ};

#[test]
fn roulette_constants() {
    assert_eq!(STEP_DELAY_MS, 20);
    assert_eq!(ON_STATE_PERIOD_LEN, 3);
    assert_eq!(PERIOD_SHIFT, 2);
    assert_eq!(periods_num(8), 16);
}

#[test]
fn led_values_of_the_book_diagram() {
    // 2 + 0 % 16 = 2, 2 + 14 % 16 = 0, 2 + 28 % 16 = 14, 2 + 42 % 16 = 12, 2 + 56 % 16 = 10
    assert_eq!(led_value(2, 0, 8), 2);
    assert_eq!(led_value(2, 1, 8), 0);
    assert_eq!(led_value(2, 2, 8), 14);
    assert_eq!(led_value(2, 3, 8), 12);
    assert_eq!(led_value(2, 4, 8), 10);
}

#[test]
fn first_frame() {
    let f = roulette_frame(PERIOD_SHIFT, 8);
    assert_eq!(f, vec![true, true, false, false, false, false, false, false]);
}

#[test]
fn odd_frame_lights_one() {
    let f = roulette_frame(5, 8);
    assert_eq!(f, vec![false, false, true, false, false, false, false, false]);
}

#[test]
fn frame_zero_wraps_to_last_led() {
    let f = roulette_frame(0, 8);
    assert_eq!(f, vec![true, false, false, false, false, false, false, true]);
}

#[test]
fn every_frame_lights_one_or_two() {
    for p in 0..16 {
        let lit = roulette_frame(p, 8).iter().filter(|b| **b).count();
        assert_eq!(lit, if p % 2 == 0 { 2 } else { 1 });
    }
}

#[test]
fn frames_rotate_every_two_periods() {
    for p in 0..16usize {
        let now = roulette_frame(p, 8);
        let later = roulette_frame(next_period(next_period(p, 8), 8), 8);
        for i in 0..8usize {
            assert_eq!(later[i], now[(i + 7) % 8]);
        }
    }
}

#[test]
fn each_led_on_three_periods_per_turn() {
    for i in 0..8usize {
        let on: Vec<usize> = (0..16).filter(|p| roulette_frame(*p, 8)[i]).collect();
        assert_eq!(on.len(), 3);
        assert!(on.contains(&(2 * i)));
        assert!(on.contains(&(2 * i + 1)));
        assert!(on.contains(&((2 * i + 2) % 16)));
    }
}

#[test]
fn next_period_wraps() {
    assert_eq!(next_period(2, 8), 3);
    assert_eq!(next_period(15, 8), 0);
    let mut p = PERIOD_SHIFT;
    for _ in 0..16 {
        p = next_period(p, 8);
    }
    assert_eq!(p, PERIOD_SHIFT);
}

#[test]
fn single_led_roulette_always_on() {
    assert_eq!(roulette_frame(0, 1), vec![true]);
    assert_eq!(roulette_frame(1, 1), vec![true]);
}

#[test]
fn timer_constants() {
    assert_eq!(KHZ, 1000);
    assert_eq!(MHZ, 1000 * KHZ as u32);
    assert_eq!(CLOCK_FREQ, 8 * MHZ);
}

#[test]
fn prescaler_for_8mhz() {
    assert_eq!(tim6_prescaler(CLOCK_FREQ), Some(7999));
    let psc = tim6_prescaler(CLOCK_FREQ).unwrap() as u32;
    assert_eq!(CLOCK_FREQ / (psc + 1), TICK_HZ);
}

#[test]
fn prescaler_edges() {
    assert_eq!(tim6_prescaler(1000), Some(0));
    assert_eq!(tim6_prescaler(1999), Some(0));
    assert_eq!(tim6_prescaler(65_535_999), Some(65534));
    assert_eq!(tim6_prescaler(65_536_000), None);
    assert_eq!(tim6_prescaler(u32::MAX), None);
}

#[test]
fn chase_steps() {
    assert_eq!(chase_step(0), ChaseStep { turn_on: 1, turn_off: 0 });
    assert_eq!(chase_step(7), ChaseStep { turn_on: 0, turn_off: 7 });
    let mut lit: Vec<usize> = (0..8).map(|c| chase_step(c).turn_on).collect();
    lit.sort();
    assert_eq!(lit, (0..8).collect::<Vec<usize>>());
}
