use vstd::prelude::*;
use vstd::string::*;

verus! {

/// The character of decimal digit `d` (0 to 9).
pub open spec fn digit_char(d: int) -> char {
    (48 + d) as char
}

/// The decimal digits of `n`, most significant first, without leading zeros
/// (a lone `0` for zero).
pub open spec fn decimal_digits(n: nat) -> Seq<char>
    decreases n,
{
    if n < 10 {
        seq![digit_char(n as int)]
    } else {
        decimal_digits(n / 10).push(digit_char((n % 10) as int))
    }
}

/// The decimal text of `x`, as `{}` formats an integer: a minus sign before
/// the digits of a negative number.
pub open spec fn decimal_text(x: int) -> Seq<char> {
    if x < 0 {
        seq!['-'] + decimal_digits((-x) as nat)
    } else {
        decimal_digits(x as nat)
    }
}

/// The number that a string of decimal digits spells, most significant
/// first.
pub open spec fn digits_value(s: Seq<char>) -> int
    decreases s.len(),
{
    if s.len() == 0 {
        0
    } else {
        digits_value(s.drop_last()) * 10 + (s.last() as int - 48)
    }
}

/// The integer that a decimal text spells, a leading minus sign negating it.
pub open spec fn signed_value(s: Seq<char>) -> int {
    if s.len() > 0 && s[0] == '-' {
        -digits_value(s.drop_first())
    } else {
        digits_value(s)
    }
}

/// The line written for an acceleration reading: `\rdata: x X y Y z Z\n`
/// with the three axes in decimal.
pub open spec fn accel_report_text(x: i32, y: i32, z: i32) -> Seq<char> {
    "\rdata: x "@ + decimal_text(x as int) + " y "@ + decimal_text(y as int) + " z "@
        + decimal_text(z as int) + "\n"@
}

fn digit_str(d: u32) -> (r: &'static str)
    requires
        d < 10,
    ensures
        r@ == seq![digit_char(d as int)],
{
    proof {
        reveal_strlit("0");
        reveal_strlit("1");
        reveal_strlit("2");
        reveal_strlit("3");
        reveal_strlit("4");
        reveal_strlit("5");
        reveal_strlit("6");
        reveal_strlit("7");
        reveal_strlit("8");
        reveal_strlit("9");
    }
    let r = if d == 0 {
        "0"
    } else if d == 1 {
        "1"
    } else if d == 2 {
        "2"
    } else if d == 3 {
        "3"
    } else if d == 4 {
        "4"
    } else if d == 5 {
        "5"
    } else if d == 6 {
        "6"
    } else if d == 7 {
        "7"
    } else if d == 8 {
        "8"
    } else {
        "9"
    };
    assert(r@ =~= seq![digit_char(d as int)]);
    r
}

fn append_digits(line: &mut String, n: u32)
    ensures
        final(line)@ == old(line)@ + decimal_digits(n as nat),
    decreases n,
{
    if n >= 10 {
        append_digits(line, n / 10);
    }
    line.append(digit_str(n % 10));
    assert(final(line)@ =~= old(line)@ + decimal_digits(n as nat)) by {
        if n >= 10 {
            assert(decimal_digits(n as nat) == decimal_digits((n / 10) as nat).push(
                digit_char((n % 10) as int),
            ));
        }
    }
}

/// Appends the decimal text of `x` to `line`.
pub fn append_decimal(line: &mut String, x: i32)
    ensures
        final(line)@ == old(line)@ + decimal_text(x as int),
        signed_value(final(line)@.subrange(old(line)@.len() as int, final(line)@.len() as int)) == x,
{
    if x < 0 {
        line.append("-");
        let magnitude: u32 = (0 - (x as i64)) as u32;
        append_digits(line, magnitude);
        proof {
            reveal_strlit("-");
        }
        assert(final(line)@ =~= old(line)@ + decimal_text(x as int));
    } else {
        append_digits(line, x as u32);
    }
    proof {
        lemma_decimal_text_reads_back(x as int);
        assert(final(line)@.subrange(old(line)@.len() as int, final(line)@.len() as int)
            =~= decimal_text(x as int));
    }
}

/// The report line of an acceleration reading `(x, y, z)`.
pub fn accel_report_line(x: i32, y: i32, z: i32) -> (r: String)
    ensures
        r@ == accel_report_text(x, y, z),
        r@ == "\rdata: x "@ + decimal_text(x as int) + " y "@ + decimal_text(y as int) + " z "@
            + decimal_text(z as int) + "\n"@,
{
    let mut line = String::from_str("\rdata: x ");
    append_decimal(&mut line, x);
    line.append(" y ");
    append_decimal(&mut line, y);
    line.append(" z ");
    append_decimal(&mut line, z);
    line.append("\n");
    assert(line@ =~= accel_report_text(x, y, z));
    line
}

proof fn lemma_digits_read_back(n: nat)
    ensures
        digits_value(decimal_digits(n)) == n,
        decimal_digits(n).len() >= 1,
        forall|i: int|
            0 <= i < decimal_digits(n).len() ==> 48 <= #[trigger] (decimal_digits(n)[i] as int) <= 57,
    decreases n,
{
    if n >= 10 {
        lemma_digits_read_back(n / 10);
        let d = decimal_digits(n);
        assert(d.drop_last() =~= decimal_digits(n / 10));
        assert(d.last() as int == 48 + n % 10);
        assert(n == (n / 10) * 10 + n % 10);
        assert(digits_value(d) == digits_value(d.drop_last()) * 10 + (d.last() as int - 48));
        assert forall|i: int| 0 <= i < d.len() implies 48 <= #[trigger] (d[i] as int) <= 57 by {
            if i < d.len() - 1 {
                assert(d[i] == decimal_digits(n / 10)[i]);
            }
        }
    } else {
        let d = decimal_digits(n);
        assert(d.drop_last() =~= Seq::<char>::empty());
        assert(digits_value(d.drop_last()) == 0);
        assert(d.last() as int == 48 + n);
        assert(digits_value(d) == digits_value(d.drop_last()) * 10 + (d.last() as int - 48));
    }
}

/// The decimal text of every integer reads back as that integer, and it
/// starts with a minus sign exactly when the integer is negative.
pub proof fn lemma_decimal_text_reads_back(v: int)
    ensures
        signed_value(decimal_text(v)) == v,
        decimal_text(v).len() >= 1,
        decimal_text(v)[0] == '-' <==> v < 0,
{
    if v < 0 {
        lemma_digits_read_back((-v) as nat);
        assert(decimal_text(v).drop_first() =~= decimal_digits((-v) as nat));
    } else {
        lemma_digits_read_back(v as nat);
        assert(decimal_digits(v as nat)[0] as int >= 48);
    }
}

/// The report line is the fixed text with each axis's signed decimal text
/// in its place: the x, y and z fields read back as the reading's x, y and z.
pub proof fn lemma_report_fields_read_back(x: i32, y: i32, z: i32)
    ensures
        accel_report_text(x, y, z) == "\rdata: x "@ + decimal_text(x as int) + " y "@ + decimal_text(
            y as int,
        ) + " z "@ + decimal_text(z as int) + "\n"@,
        signed_value(decimal_text(x as int)) == x,
        signed_value(decimal_text(y as int)) == y,
        signed_value(decimal_text(z as int)) == z,
{
    lemma_decimal_text_reads_back(x as int);
    lemma_decimal_text_reads_back(y as int);
    lemma_decimal_text_reads_back(z as int);
}

} // verus!
