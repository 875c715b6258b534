use discovery::compass_direction::CompassDirection;
use discovery::leds::{PinWrite, LEDs};

#[test]
fn direction_names_match_debug() {
    let all = [
        CompassDirection::North,
        CompassDirection::NorthEast,
        CompassDirection::East,
        CompassDirection::SouthEast,
        CompassDirection::South,
        CompassDirection::SouthWest,
        CompassDirection::West,
        CompassDirection::NorthWest,
    ];
    let names = ["North", "NorthEast", "East", "SouthEast", "South", "SouthWest", "West", "NorthWest"];
    for (d, n) in all.iter().zip(names.iter()) {
        assert_eq!(d.name(), *n);
        assert_eq!(format!("{:?}", d), *n);
    }
}

#[test]
fn direction_pins() {
    // LD4 = PE8, LD3 = PE9, LD5 = PE10, LD7 = PE11, LD9 = PE12, LD10 = PE13, LD8 = PE14, LD6 = PE15
    assert_eq!(CompassDirection::NorthWest.pin(), 8);
    assert_eq!(CompassDirection::North.pin(), 9);
    assert_eq!(CompassDirection::NorthEast.pin(), 10);
    assert_eq!(CompassDirection::East.pin(), 11);
    assert_eq!(CompassDirection::SouthEast.pin(), 12);
    assert_eq!(CompassDirection::South.pin(), 13);
    assert_eq!(CompassDirection::SouthWest.pin(), 14);
    assert_eq!(CompassDirection::West.pin(), 15);
}

#[test]
fn pins_are_distinct() {
    let mut pins: Vec<u8> = Vec::new();
    for k in 0..8u8 {
        pins.push(CompassDirection::from_sector(k).unwrap().pin());
    }
    pins.sort();
    assert_eq!(pins, vec![8, 9, 10, 11, 12, 13, 14, 15]);
}

#[test]
fn sectors_in_heading_order() {
    assert_eq!(CompassDirection::from_sector(0), Some(CompassDirection::North));
    assert_eq!(CompassDirection::from_sector(1), Some(CompassDirection::NorthWest));
    assert_eq!(CompassDirection::from_sector(2), Some(CompassDirection::West));
    assert_eq!(CompassDirection::from_sector(3), Some(CompassDirection::SouthWest));
    assert_eq!(CompassDirection::from_sector(4), Some(CompassDirection::South));
    assert_eq!(CompassDirection::from_sector(5), Some(CompassDirection::SouthEast));
    assert_eq!(CompassDirection::from_sector(6), Some(CompassDirection::East));
    assert_eq!(CompassDirection::from_sector(7), Some(CompassDirection::NorthEast));
}

#[test]
fn sector_past_last_has_no_direction() {
    assert_eq!(CompassDirection::from_sector(8), None);
    assert_eq!(CompassDirection::from_sector(255), None);
}

#[test]
fn new_leds_are_all_off() {
    let leds = LEDs::new();
    for pin in 8..16u8 {
        assert!(!leds.level(pin));
    }
}

#[test]
fn set_direction_led_writes_reset_then_set() {
    let mut leds = LEDs::new();
    let writes = leds.set_direction_led(CompassDirection::North);
    // south, south-west, west, north-west, north, north-east, east, south-east
    let mut expected: Vec<PinWrite> =
        [13u8, 14, 15, 8, 9, 10, 11, 12].iter().map(|pin| PinWrite { pin: *pin, high: false }).collect();
    expected.push(PinWrite { pin: 9, high: true });
    assert_eq!(writes, expected);
}

#[test]
fn set_direction_led_lights_only_that_led() {
    let mut leds = LEDs::new();
    leds.set_direction_led(CompassDirection::East);
    leds.set_direction_led(CompassDirection::SouthWest);
    for pin in 8..16u8 {
        assert_eq!(leds.level(pin), pin == 14);
    }
}

#[test]
fn applying_writes_to_any_levels_lights_one() {
    // whatever the pins held, the writes leave only the direction's LED on
    let mut pins = [true; 8];
    let mut leds = LEDs::new();
    for w in leds.set_direction_led(CompassDirection::NorthWest) {
        pins[(w.pin - 8) as usize] = w.high;
    }
    for i in 0..8usize {
        assert_eq!(pins[i], i == 0);
        assert_eq!(leds.level(8 + i as u8), pins[i]);
    }
}

#[test]
fn set_direction_led_twice_same_state() {
    let mut a = LEDs::new();
    a.set_direction_led(CompassDirection::South);
    let w1 = a.set_direction_led(CompassDirection::SouthEast);
    let mut b = LEDs::new();
    let w2 = b.set_direction_led(CompassDirection::SouthEast);
    assert_eq!(w1, w2);
    for pin in 8..16u8 {
        assert_eq!(a.level(pin), b.level(pin));
    }
}

#[test]
fn north_lights_pe9_only() {
    let mut leds = LEDs::new();
    leds.set_direction_led(CompassDirection::North);
    let mut odr: u16 = 0;
    for pin in 8..16u8 {
        if leds.level(pin) {
            odr |= 1 << pin;
        }
    }
    assert_eq!((odr >> 8) & 0xFF, 0b0000_0010);
}

#[test]
fn reset_writes_absorb_earlier_state() {
    // the first eight writes of any direction switch every LED off
    let mut leds = LEDs::new();
    let first = leds.set_direction_led(CompassDirection::East);
    let second = leds.set_direction_led(CompassDirection::West);
    let mut pins = [false; 8];
    for w in first.iter().chain(second[..8].iter()) {
        pins[(w.pin - 8) as usize] = w.high;
    }
    assert_eq!(pins, [false; 8]);
}
