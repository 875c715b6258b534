use vstd::prelude::*;
use vstd::string::*;

verus! {

/// The quadrant of the horizontal magnetic field, as the sensor reports it.
#[derive(Clone, Copy, PartialEq, Eq, Structural)]
pub enum Direction {
    Southeast,
    Southwest,
    Northeast,
    Northwest,
}

/// The quadrant of a field reading: east when `y > 0`, south when `x > 0`.
pub open spec fn field_direction(x: i32, y: i32) -> Direction {
    if x > 0 && y > 0 {
        Direction::Southeast
    } else if x <= 0 && y > 0 {
        Direction::Northeast
    } else if x > 0 && y <= 0 {
        Direction::Southwest
    } else {
        Direction::Northwest
    }
}

/// The text that reports a quadrant, brackets included.
pub open spec fn direction_label(d: Direction) -> Seq<char> {
    match d {
        Direction::Southeast => "[Southeast]"@,
        Direction::Southwest => "[Southwest]"@,
        Direction::Northeast => "[Northeast]"@,
        Direction::Northwest => "[Northwest]"@,
    }
}

/// The line written for each reading: a carriage return, `direction: `, the
/// label and a line feed.
pub open spec fn report_text(d: Direction) -> Seq<char> {
    "\rdirection: "@ + direction_label(d) + "\n"@
}

impl Direction {
    /// The quadrant of the field reading `(x, y)`.
    pub fn from_field(x: i32, y: i32) -> (r: Direction)
        ensures
            r == field_direction(x, y),
    {
        match (x > 0, y > 0) {
            (true, true) => Direction::Southeast,
            (false, true) => Direction::Northeast,
            (true, false) => Direction::Southwest,
            (false, false) => Direction::Northwest,
        }
    }

    /// The label of the quadrant, as its `Debug` form writes it.
    pub fn label(&self) -> (r: &'static str)
        ensures
            r@ == direction_label(*self),
    {
        match self {
            Direction::Southeast => "[Southeast]",
            Direction::Southwest => "[Southwest]",
            Direction::Northeast => "[Northeast]",
            Direction::Northwest => "[Northwest]",
        }
    }

    /// The report line for this quadrant.
    pub fn report_line(&self) -> (r: String)
        ensures
            r@ == report_text(*self),
            r@ == "\rdirection: "@ + direction_label(*self) + "\n"@,
    {
        let mut line = String::from_str("\rdirection: ");
        line.append(self.label());
        line.append("\n");
        line
    }
}

/// The four quadrants split the readings: each reading has exactly one, and
/// the quadrant depends only on the signs of `x` and `y`.
pub proof fn lemma_quadrant_by_signs(x1: i32, y1: i32, x2: i32, y2: i32)
    requires
        (x1 > 0) == (x2 > 0),
        (y1 > 0) == (y2 > 0),
    ensures
        field_direction(x1, y1) == field_direction(x2, y2),
        (field_direction(x1, y1) == Direction::Southeast || field_direction(x1, y1) == Direction::Southwest) <==> x1 > 0,
        (field_direction(x1, y1) == Direction::Southeast || field_direction(x1, y1) == Direction::Northeast) <==> y1 > 0,
{
}

/// Each quadrant has its own label, the variant's name in brackets.
pub proof fn lemma_labels_name_their_quadrant(a: Direction, b: Direction)
    ensures
        direction_label(a) == direction_label(b) <==> a == b,
        direction_label(Direction::Southeast) == seq!['[', 'S', 'o', 'u', 't', 'h', 'e', 'a', 's', 't', ']'],
        direction_label(Direction::Southwest) == seq!['[', 'S', 'o', 'u', 't', 'h', 'w', 'e', 's', 't', ']'],
        direction_label(Direction::Northeast) == seq!['[', 'N', 'o', 'r', 't', 'h', 'e', 'a', 's', 't', ']'],
        direction_label(Direction::Northwest) == seq!['[', 'N', 'o', 'r', 't', 'h', 'w', 'e', 's', 't', ']'],
{
    reveal_strlit("[Southeast]");
    reveal_strlit("[Southwest]");
    reveal_strlit("[Northeast]");
    reveal_strlit("[Northwest]");
    assert(direction_label(Direction::Southeast) =~= seq!['[', 'S', 'o', 'u', 't', 'h', 'e', 'a', 's', 't', ']']);
    assert(direction_label(Direction::Southwest) =~= seq!['[', 'S', 'o', 'u', 't', 'h', 'w', 'e', 's', 't', ']']);
    assert(direction_label(Direction::Northeast) =~= seq!['[', 'N', 'o', 'r', 't', 'h', 'e', 'a', 's', 't', ']']);
    assert(direction_label(Direction::Northwest) =~= seq!['[', 'N', 'o', 'r', 't', 'h', 'w', 'e', 's', 't', ']']);
    if a != b {
        assert(direction_label(a)[1] != direction_label(b)[1] || direction_label(a)[6] != direction_label(b)[6]);
    }
}

/// The report line names the quadrant it is given, and no other: it is the
/// fixed text around that quadrant's own label, and different quadrants give
/// different lines.
pub proof fn lemma_report_names_its_quadrant(a: Direction, b: Direction)
    ensures
        report_text(a) == "\rdirection: "@ + direction_label(a) + "\n"@,
        report_text(a) == report_text(b) <==> a == b,
{
    lemma_labels_name_their_quadrant(a, b);
    reveal_strlit("\rdirection: ");
    reveal_strlit("\n");
    let pre = "\rdirection: "@;
    if a != b {
        assert(report_text(a)[pre.len() as int + 1] == direction_label(a)[1]);
        assert(report_text(b)[pre.len() as int + 1] == direction_label(b)[1]);
        assert(report_text(a)[pre.len() as int + 6] == direction_label(a)[6]);
        assert(report_text(b)[pre.len() as int + 6] == direction_label(b)[6]);
    }
}

/// The quadrant follows the field: south when `x > 0`, east when `y > 0`.
pub proof fn lemma_quadrant_of_field(x: i32, y: i32)
    ensures
        (x > 0 && y > 0) <==> field_direction(x, y) == Direction::Southeast,
        (x > 0 && y <= 0) <==> field_direction(x, y) == Direction::Southwest,
        (x <= 0 && y > 0) <==> field_direction(x, y) == Direction::Northeast,
        (x <= 0 && y <= 0) <==> field_direction(x, y) == Direction::Northwest,
{
}

} // verus!
