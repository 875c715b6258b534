use vstd::prelude::*;

verus! {

/// Cardinal directions. Each one matches one of the user LEDs.
#[derive(Clone, Copy, Debug, PartialEq, Eq, Structural)]
pub enum CompassDirection {
    /// North / LD3 (PE9)
    North,
    /// Northeast / LD5 (PE10)
    NorthEast,
    /// East / LD7 (PE11)
    East,
    /// Southeast / LD9 (PE12)
    SouthEast,
    /// South / LD10 (PE13)
    South,
    /// Southwest / LD8 (PE14)
    SouthWest,
    /// West / LD6 (PE15)
    West,
    /// Northwest / LD4 (PE8)
    NorthWest,
}

/// The text that names a direction.
pub open spec fn direction_name(d: CompassDirection) -> Seq<char> {
    match d {
        CompassDirection::North => "North"@,
        CompassDirection::NorthWest => "NorthWest"@,
        CompassDirection::NorthEast => "NorthEast"@,
        CompassDirection::South => "South"@,
        CompassDirection::SouthWest => "SouthWest"@,
        CompassDirection::SouthEast => "SouthEast"@,
        CompassDirection::West => "West"@,
        CompassDirection::East => "East"@,
    }
}

/// The GPIOE pin that drives the user LED of a direction on the STM32F3
/// Discovery board: LD4 is PE8, LD3 PE9, LD5 PE10, LD7 PE11, LD9 PE12,
/// LD10 PE13, LD8 PE14 and LD6 PE15.
pub open spec fn direction_pin(d: CompassDirection) -> u8 {
    match d {
        CompassDirection::NorthWest => 8,
        CompassDirection::North => 9,
        CompassDirection::NorthEast => 10,
        CompassDirection::East => 11,
        CompassDirection::SouthEast => 12,
        CompassDirection::South => 13,
        CompassDirection::SouthWest => 14,
        CompassDirection::West => 15,
    }
}

/// The direction shown for a heading sector. The heading `theta` (radians,
/// in `[-PI, PI]`) falls in sector `k` when it is the first `k` for which
/// `theta < (2k - 7) * PI / 8`; sector 8 is every heading at or above `7 * PI / 8`,
/// which has no direction.
pub open spec fn sector_direction(k: int) -> Option<CompassDirection> {
    if k == 0 {
        Some(CompassDirection::North)
    } else if k == 1 {
        Some(CompassDirection::NorthWest)
    } else if k == 2 {
        Some(CompassDirection::West)
    } else if k == 3 {
        Some(CompassDirection::SouthWest)
    } else if k == 4 {
        Some(CompassDirection::South)
    } else if k == 5 {
        Some(CompassDirection::SouthEast)
    } else if k == 6 {
        Some(CompassDirection::East)
    } else if k == 7 {
        Some(CompassDirection::NorthEast)
    } else {
        None
    }
}

impl CompassDirection {
    /// The name of the direction, as its `Debug` form writes it.
    pub fn name(&self) -> (r: &'static str)
        ensures
            r@ == direction_name(*self),
    {
        match self {
            CompassDirection::North => "North",
            CompassDirection::NorthWest => "NorthWest",
            CompassDirection::NorthEast => "NorthEast",
            CompassDirection::South => "South",
            CompassDirection::SouthWest => "SouthWest",
            CompassDirection::SouthEast => "SouthEast",
            CompassDirection::West => "West",
            CompassDirection::East => "East",
        }
    }

    /// The GPIOE pin (8 to 15) of the user LED that shows this direction
    /// (see `direction_pin`).
    pub fn pin(&self) -> (r: u8)
        ensures
            r == direction_pin(*self),
            8 <= r <= 15,
    {
        match self {
            CompassDirection::NorthWest => 8,
            CompassDirection::North => 9,
            CompassDirection::NorthEast => 10,
            CompassDirection::East => 11,
            CompassDirection::SouthEast => 12,
            CompassDirection::South => 13,
            CompassDirection::SouthWest => 14,
            CompassDirection::West => 15,
        }
    }

    /// The direction of a heading sector (see `sector_direction`): `None` for
    /// sector 8 and above, where the compass has no direction to show.
    pub fn from_sector(sector: u8) -> (r: Option<CompassDirection>)
        ensures
            r == sector_direction(sector as int),
            r is Some <==> sector < 8,
    {
        if sector == 0 {
            Some(CompassDirection::North)
        } else if sector == 1 {
            Some(CompassDirection::NorthWest)
        } else if sector == 2 {
            Some(CompassDirection::West)
        } else if sector == 3 {
            Some(CompassDirection::SouthWest)
        } else if sector == 4 {
            Some(CompassDirection::South)
        } else if sector == 5 {
            Some(CompassDirection::SouthEast)
        } else if sector == 6 {
            Some(CompassDirection::East)
        } else if sector == 7 {
            Some(CompassDirection::NorthEast)
        } else {
            None
        }
    }
}

/// Different directions light different LEDs.
pub proof fn lemma_pins_distinct(a: CompassDirection, b: CompassDirection)
    requires
        a != b,
    ensures
        direction_pin(a) != direction_pin(b),
{
}

/// Every direction is shown for exactly one heading sector.
pub proof fn lemma_each_direction_has_one_sector(d: CompassDirection)
    ensures
        exists|k: int| 0 <= k < 8 && sector_direction(k) == Some(d),
        forall|k1: int, k2: int|
            sector_direction(k1) == Some(d) && sector_direction(k2) == Some(d) ==> k1 == k2,
{
    let k: int = match d {
        CompassDirection::North => 0,
        CompassDirection::NorthWest => 1,
        CompassDirection::West => 2,
        CompassDirection::SouthWest => 3,
        CompassDirection::South => 4,
        CompassDirection::SouthEast => 5,
        CompassDirection::East => 6,
        CompassDirection::NorthEast => 7,
    };
    assert(sector_direction(k) == Some(d));
}

/// Sector 0 shows north, and each following sector shows the direction one
/// LED further anticlockwise round the ring of pins (PE8 to PE15 run
/// clockwise from north-west), so the eight sectors visit every LED once.
pub proof fn lemma_sectors_turn_anticlockwise(k: int)
    requires
        0 <= k < 7,
    ensures
        sector_direction(0) == Some(CompassDirection::North),
        sector_direction(k) is Some,
        sector_direction(k + 1) is Some,
        direction_pin(sector_direction(k + 1)->0) as int == 8 + (direction_pin(
            sector_direction(k)->0,
        ) as int - 8 + 7) % 8,
{
}

} // verus!
