use vstd::prelude::*;

use crate::compass_direction::{direction_pin, CompassDirection};

verus! {

/// One write to an LED pin: drive GPIOE pin `pin` high or low.
#[derive(Clone, Copy, Debug, PartialEq, Eq, Structural)]
pub struct PinWrite {
    pub pin: u8,
    pub high: bool,
}

/// The output levels of the eight compass LED pins. Index `i` of the view is
/// GPIOE pin `8 + i`: north-west (LD4), north (LD3), north-east (LD5), east
/// (LD7), south-east (LD9), south (LD10), south-west (LD8) and west (LD6), in
/// that order.
pub struct LEDs {
    levels: [bool; 8],
}

impl View for LEDs {
    type V = Seq<bool>;

    closed spec fn view(&self) -> Seq<bool> {
        self.levels@
    }
}

/// Every LED off.
pub open spec fn all_low() -> Seq<bool> {
    Seq::new(8, |i: int| false)
}

/// Only the LED on `pin` lit.
pub open spec fn lit_only(pin: u8) -> Seq<bool> {
    Seq::new(8, |i: int| i + 8 == pin)
}

/// The pin of the `k`-th LED that a reset switches off: south, south-west,
/// west, north-west, north, north-east, east, south-east, that is pins 13,
/// 14, 15, 8, 9, 10, 11 and 12.
pub open spec fn reset_pin(k: int) -> int {
    8 + (k + 5) % 8
}

/// The writes that turn every LED off, south first and south-east last.
pub open spec fn reset_writes() -> Seq<PinWrite> {
    Seq::new(8, |k: int| PinWrite { pin: reset_pin(k) as u8, high: false })
}

/// The writes that show a direction: every LED off, then the direction's LED on.
pub open spec fn direction_writes(d: CompassDirection) -> Seq<PinWrite> {
    reset_writes().push(PinWrite { pin: direction_pin(d), high: true })
}

/// The levels that a sequence of writes, performed in order, leaves on the
/// LED pins; writes to pins other than 8 to 15 do not touch them.
pub open spec fn apply_writes(levels: Seq<bool>, writes: Seq<PinWrite>) -> Seq<bool>
    decreases writes.len(),
{
    if writes.len() == 0 {
        levels
    } else {
        let before = apply_writes(levels, writes.drop_last());
        let w = writes.last();
        if 8 <= w.pin < 16 {
            before.update(w.pin - 8, w.high)
        } else {
            before
        }
    }
}

impl LEDs {
    /// The LEDs as they are after their pins are set up as outputs: all off.
    pub fn new() -> (r: LEDs)
        ensures
            r@ == all_low(),
    {
        let r = LEDs { levels: [false; 8] };
        assert(r@ =~= all_low());
        r
    }

    /// The level of LED pin `pin` (8 to 15).
    pub fn level(&self, pin: u8) -> (r: bool)
        requires
            8 <= pin < 16,
        ensures
            r == self@[pin - 8],
    {
        self.levels[(pin - 8) as usize]
    }

    /// Turns every LED off; returns the pin writes that do so, in order.
    fn reset_all(&mut self) -> (writes: Vec<PinWrite>)
        ensures
            final(self)@ == all_low(),
            writes@ == reset_writes(),
    {
        let mut writes: Vec<PinWrite> = Vec::new();
        let mut k: usize = 0;
        while k < 8
            invariant
                k <= 8,
                self.levels@.len() == 8,
                writes@ == reset_writes().take(k as int),
                forall|j: int| 0 <= j < 8 && (j + 3) % 8 < k ==> !self.levels@[j],
            decreases 8 - k,
        {
            let index = (k + 5) % 8;
            self.levels[index] = false;
            writes.push(PinWrite { pin: 8 + index as u8, high: false });
            assert(writes@ =~= reset_writes().take(k + 1));
            k = k + 1;
        }
        assert(writes@ =~= reset_writes());
        assert(self.levels@ =~= all_low());
        writes
    }

    /// Lights the LED of `direction` alone: turns every LED off, then that
    /// one on. Returns the pin writes that do so, in order.
    pub fn set_direction_led(&mut self, direction: CompassDirection) -> (writes: Vec<PinWrite>)
        ensures
            final(self)@ == lit_only(direction_pin(direction)),
            writes@ == direction_writes(direction),
    {
        let mut writes = self.reset_all();
        let pin = direction.pin();
        self.levels[(pin - 8) as usize] = true;
        writes.push(PinWrite { pin, high: true });
        assert(self.levels@ =~= lit_only(pin));
        writes
    }
}

proof fn lemma_reset_prefix(levels: Seq<bool>, k: int)
    requires
        levels.len() == 8,
        0 <= k <= 8,
    ensures
        apply_writes(levels, reset_writes().take(k)).len() == 8,
        forall|i: int|
            0 <= i < 8 ==> #[trigger] apply_writes(levels, reset_writes().take(k))[i] == if (i + 3)
                % 8 < k {
                false
            } else {
                levels[i]
            },
    decreases k,
{
    if k > 0 {
        lemma_reset_prefix(levels, k - 1);
        assert(reset_writes().take(k).drop_last() =~= reset_writes().take(k - 1));
    } else {
        assert(reset_writes().take(0) =~= Seq::<PinWrite>::empty());
    }
}

/// A reset switches every LED off whatever the pins held before: it
/// absorbs every earlier write, `set_direction_led`'s among them.
pub proof fn lemma_reset_absorbs(levels: Seq<bool>, earlier: Seq<PinWrite>)
    requires
        levels.len() == 8,
    ensures
        apply_writes(apply_writes(levels, earlier), reset_writes()) == all_low(),
        apply_writes(apply_writes(levels, reset_writes()), reset_writes()) == all_low(),
{
    lemma_apply_keeps_len(levels, earlier);
    let before = apply_writes(levels, earlier);
    lemma_reset_prefix(before, 8);
    assert(reset_writes().take(8) =~= reset_writes());
    assert(apply_writes(before, reset_writes()) =~= all_low());
    lemma_reset_prefix(levels, 8);
    lemma_reset_prefix(apply_writes(levels, reset_writes()), 8);
    assert(apply_writes(apply_writes(levels, reset_writes()), reset_writes()) =~= all_low());
}

proof fn lemma_apply_keeps_len(levels: Seq<bool>, writes: Seq<PinWrite>)
    requires
        levels.len() == 8,
    ensures
        apply_writes(levels, writes).len() == 8,
    decreases writes.len(),
{
    if writes.len() > 0 {
        lemma_apply_keeps_len(levels, writes.drop_last());
    }
}

/// The writes that `set_direction_led` returns, performed on the pins in
/// order, leave exactly the direction's LED lit, whatever the pins held before.
pub proof fn lemma_direction_writes_light_one(levels: Seq<bool>, d: CompassDirection)
    requires
        levels.len() == 8,
    ensures
        apply_writes(levels, direction_writes(d)) == lit_only(direction_pin(d)),
{
    lemma_reset_prefix(levels, 8);
    assert(reset_writes().take(8) =~= reset_writes());
    assert(direction_writes(d).drop_last() =~= reset_writes());
    assert(apply_writes(levels, direction_writes(d)) =~= lit_only(direction_pin(d)));
}

/// Showing a direction lights exactly one LED: the direction's own.
pub proof fn lemma_one_led_lit(d: CompassDirection)
    ensures
        lit_only(direction_pin(d)).len() == 8,
        lit_only(direction_pin(d))[direction_pin(d) - 8],
        forall|i: int|
            0 <= i < 8 && i != direction_pin(d) - 8 ==> !#[trigger] lit_only(direction_pin(d))[i],
{
}

} // verus!
