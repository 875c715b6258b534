use vstd::prelude::*;

verus! {

/// Capacity of the line buffer, in received words.
pub const LINE_CAPACITY: usize = 128;

/// The word that the terminal sends for the Enter key (carriage return).
pub const ENTER: u32 = 13;

/// Line feed, appended to an echoed line.
pub const LINE_FEED: u32 = 10;

/// Carriage return, appended to an echoed line after the line feed.
pub const CARRIAGE_RETURN: u32 = 13;

/// `heapless::Vec`, the fixed-capacity vector that holds the line; its
/// contents are known only through `buffer_contents`.
#[verifier::external_type_specification]
#[verifier::external_body]
#[verifier::reject_recursive_types(T)]
pub struct ExHeaplessVec<T, const N: usize>(heapless::Vec<T, N>);

/// The words that a `heapless::Vec<u32, 128>` line buffer holds, first
/// received first.
pub uninterp spec fn buffer_contents(v: heapless::Vec<u32, 128>) -> Seq<u32>;

/// `heapless::Vec::new`: an empty buffer.
#[verifier::external_body]
fn buffer_new() -> (r: heapless::Vec<u32, 128>)
    ensures
        buffer_contents(r) == Seq::<u32>::empty(),
{
    heapless::Vec::new()
}

/// `heapless::Vec::push`: appends `item` when fewer than 128 words are held
/// and returns `Ok`; otherwise leaves the buffer as it was and hands `item`
/// back in `Err`.
#[verifier::external_body]
fn buffer_push(v: &mut heapless::Vec<u32, 128>, item: u32) -> (r: Result<(), u32>)
    ensures
        r is Ok <==> buffer_contents(*old(v)).len() < 128,
        r is Ok ==> buffer_contents(*final(v)) == buffer_contents(*old(v)).push(item),
        r is Err ==> buffer_contents(*final(v)) == buffer_contents(*old(v)),
        r is Err ==> r->Err_0 == item,
{
    v.push(item)
}

/// `heapless::Vec::as_slice`: the words held, at most 128 of them.
#[verifier::external_body]
fn buffer_as_slice(v: &heapless::Vec<u32, 128>) -> (r: &[u32])
    ensures
        r@ == buffer_contents(*v),
        r@.len() <= 128,
{
    v.as_slice()
}

/// `<[u32]>::reverse` on the buffer's slice (`heapless::Vec::deref_mut`):
/// the words held, in reverse order.
#[verifier::external_body]
fn buffer_reverse(v: &mut heapless::Vec<u32, 128>)
    ensures
        buffer_contents(*final(v)) == buffer_contents(*old(v)).reverse(),
{
    core::ops::DerefMut::deref_mut(v).reverse()
}

/// `heapless::Vec::clear`: no words held.
#[verifier::external_body]
fn buffer_clear(v: &mut heapless::Vec<u32, 128>)
    ensures
        buffer_contents(*final(v)) == Seq::<u32>::empty(),
{
    v.clear()
}

/// What the echo does after a received word.
#[derive(PartialEq, Eq)]
pub enum EchoAction {
    /// Keep reading.
    Wait,
    /// Send these words back, in this order.
    Send(Vec<u32>),
}

/// The words sent back for a line: the line, a line feed and a carriage
/// return, reversed as a whole when the echo reverses.
pub open spec fn echoed_line(line: Seq<u32>, is_reversed: bool) -> Seq<u32> {
    let full = line.push(LINE_FEED).push(CARRIAGE_RETURN);
    if is_reversed {
        full.reverse()
    } else {
        full
    }
}

/// The words an action sends: none for `Wait`.
pub open spec fn sent_words(action: EchoAction) -> Seq<u32> {
    match action {
        EchoAction::Wait => Seq::<u32>::empty(),
        EchoAction::Send(words) => words@,
    }
}

/// One step of the echo on the line held so far: the new line and the words
/// sent.
pub open spec fn echo_step(line: Seq<u32>, is_reversed: bool, byte: u32) -> (Seq<u32>, Seq<u32>) {
    if byte == ENTER {
        (Seq::<u32>::empty(), echoed_line(line, is_reversed))
    } else {
        (line.push(byte), Seq::<u32>::empty())
    }
}

/// The echo run over a stream of received words from the line `line`: the
/// line held at the end and all the words sent, in order.
pub open spec fn echo_run(line: Seq<u32>, is_reversed: bool, input: Seq<u32>) -> (
    Seq<u32>,
    Seq<u32>,
)
    decreases input.len(),
{
    if input.len() == 0 {
        (line, Seq::<u32>::empty())
    } else {
        let first = echo_step(line, is_reversed, input[0]);
        let rest = echo_run(first.0, is_reversed, input.drop_first());
        (rest.0, first.1 + rest.1)
    }
}

/// Whether the echo can take `byte` on a buffer of `len` words without
/// overflowing it: a word other than Enter takes one place, Enter two.
pub open spec fn accepts(len: nat, byte: u32) -> bool {
    if byte == ENTER {
        len + 2 <= 128
    } else {
        len < 128
    }
}

/// A serial echo: buffers the words received until Enter, then sends the
/// line back, reversed or not.
pub struct Echo {
    buffer: heapless::Vec<u32, 128>,
    is_reversed: bool,
}

impl Echo {
    /// The words of the current line, received so far.
    pub closed spec fn line(&self) -> Seq<u32> {
        buffer_contents(self.buffer)
    }

    /// Whether lines are echoed reversed.
    pub closed spec fn reverses(&self) -> bool {
        self.is_reversed
    }

    /// An echo with an empty line.
    pub fn new(is_reversed: bool) -> (r: Echo)
        ensures
            r.line() == Seq::<u32>::empty(),
            r.reverses() == is_reversed,
    {
        Echo { buffer: buffer_new(), is_reversed }
    }

    /// Whether lines are echoed reversed.
    pub fn is_reversed(&self) -> (r: bool)
        ensures
            r == self.reverses(),
    {
        self.is_reversed
    }

    /// The number of words of the current line.
    pub fn line_len(&self) -> (r: usize)
        ensures
            r == self.line().len(),
            r <= LINE_CAPACITY,
    {
        buffer_as_slice(&self.buffer).len()
    }

    /// Whether `receive` can take `byte` now (see `accepts`).
    pub fn can_accept(&self, byte: u32) -> (r: bool)
        ensures
            r == accepts(self.line().len(), byte),
            r <==> self.line().len() + (if byte == ENTER { 2int } else { 1int }) <= LINE_CAPACITY,
    {
        let len = self.line_len();
        if byte == ENTER {
            len <= LINE_CAPACITY - 2
        } else {
            len < LINE_CAPACITY
        }
    }

    /// Handles one received word. A word other than Enter is added to the
    /// line; Enter ends the line: the echo sends back `echoed_line` and starts
    /// an empty line.
    pub fn receive(&mut self, byte: u32) -> (action: EchoAction)
        requires
            accepts(old(self).line().len(), byte),
        ensures
            final(self).reverses() == old(self).reverses(),
            final(self).line() == echo_step(old(self).line(), old(self).reverses(), byte).0,
            sent_words(action) == echo_step(old(self).line(), old(self).reverses(), byte).1,
            byte != ENTER ==> action == EchoAction::Wait && final(self).line() == old(
                self,
            ).line().push(byte),
            byte == ENTER ==> final(self).line() == Seq::<u32>::empty() && (
            action matches EchoAction::Send(words) && words@ == echoed_line(
                old(self).line(),
                old(self).reverses(),
            )),
    {
        if byte != ENTER {
            let _ = buffer_push(&mut self.buffer, byte);
            let action = EchoAction::Wait;
            assert(sent_words(action) =~= echo_step(old(self).line(), old(self).reverses(), byte).1);
            return action;
        }
        let _ = buffer_push(&mut self.buffer, LINE_FEED);
        let _ = buffer_push(&mut self.buffer, CARRIAGE_RETURN);
        if self.is_reversed {
            buffer_reverse(&mut self.buffer);
        }
        let held = buffer_as_slice(&self.buffer);
        let mut words: Vec<u32> = Vec::new();
        let mut i: usize = 0;
        while i < held.len()
            invariant
                i <= held@.len(),
                words@ == held@.take(i as int),
            decreases held@.len() - i,
        {
            words.push(held[i]);
            assert(words@ =~= held@.take(i + 1));
            i = i + 1;
        }
        assert(words@ =~= held@);
        buffer_clear(&mut self.buffer);
        let action = EchoAction::Send(words);
        assert(sent_words(action) == echo_step(old(self).line(), old(self).reverses(), byte).1);
        action
    }
}

/// Echoing in reverse sends exactly the reverse of what echoing in order sends.
pub proof fn lemma_reversed_echo_is_reverse(line: Seq<u32>)
    ensures
        echoed_line(line, true) == echoed_line(line, false).reverse(),
{
}

/// A line echoed in order comes back as received, followed by a line feed
/// and a carriage return; in reverse it starts with them.
pub proof fn lemma_echo_frames_line(line: Seq<u32>)
    ensures
        echoed_line(line, false).len() == line.len() + 2,
        echoed_line(line, false).take(line.len() as int) == line,
        echoed_line(line, false)[line.len() as int] == LINE_FEED,
        echoed_line(line, false)[line.len() as int + 1] == CARRIAGE_RETURN,
        echoed_line(line, true)[0] == CARRIAGE_RETURN,
        echoed_line(line, true)[1] == LINE_FEED,
{
    assert(echoed_line(line, false).take(line.len() as int) =~= line);
}

/// Running the echo over two streams one after the other is running it over
/// their concatenation.
pub proof fn lemma_echo_run_concat(line: Seq<u32>, is_reversed: bool, s1: Seq<u32>, s2: Seq<u32>)
    ensures
        echo_run(line, is_reversed, s1 + s2) == (
            echo_run(echo_run(line, is_reversed, s1).0, is_reversed, s2).0,
            echo_run(line, is_reversed, s1).1 + echo_run(
                echo_run(line, is_reversed, s1).0,
                is_reversed,
                s2,
            ).1,
        ),
    decreases s1.len(),
{
    if s1.len() == 0 {
        assert(s1 + s2 =~= s2);
        assert(Seq::<u32>::empty() + echo_run(line, is_reversed, s2).1 =~= echo_run(
            line,
            is_reversed,
            s2,
        ).1);
    } else {
        let first = echo_step(line, is_reversed, s1[0]);
        assert((s1 + s2)[0] == s1[0]);
        assert((s1 + s2).drop_first() =~= s1.drop_first() + s2);
        lemma_echo_run_concat(first.0, is_reversed, s1.drop_first(), s2);
        let r1 = echo_run(first.0, is_reversed, s1.drop_first());
        let r2 = echo_run(r1.0, is_reversed, s2);
        assert(first.1 + (r1.1 + r2.1) =~= (first.1 + r1.1) + r2.1);
    }
}

/// A stream that ends with Enter leaves the line empty.
pub proof fn lemma_run_to_enter_empties_line(line: Seq<u32>, is_reversed: bool, s: Seq<u32>)
    requires
        s.len() > 0,
        s.last() == ENTER,
    ensures
        echo_run(line, is_reversed, s).0 == Seq::<u32>::empty(),
{
    let front = s.drop_last();
    assert(front + seq![ENTER] =~= s);
    lemma_echo_run_concat(line, is_reversed, front, seq![ENTER]);
    let l = echo_run(line, is_reversed, front).0;
    let enter = seq![ENTER];
    assert(enter[0] == ENTER);
    assert(enter.drop_first() =~= Seq::<u32>::empty());
    let st = echo_step(l, is_reversed, ENTER);
    assert(st.0 == Seq::<u32>::empty());
    assert(echo_run(st.0, is_reversed, Seq::<u32>::empty()).0 == st.0);
    assert(echo_run(l, is_reversed, enter).0 == Seq::<u32>::empty());
}

/// Lines do not mix: once a stream has ended with Enter, what the echo sends
/// for the words after it is what it would send for them alone, from an
/// empty line.
pub proof fn lemma_lines_do_not_mix(is_reversed: bool, s1: Seq<u32>, s2: Seq<u32>)
    requires
        s1.len() > 0,
        s1.last() == ENTER,
    ensures
        echo_run(Seq::<u32>::empty(), is_reversed, s1 + s2).1 == echo_run(
            Seq::<u32>::empty(),
            is_reversed,
            s1,
        ).1 + echo_run(Seq::<u32>::empty(), is_reversed, s2).1,
{
    lemma_echo_run_concat(Seq::<u32>::empty(), is_reversed, s1, s2);
    lemma_run_to_enter_empties_line(Seq::<u32>::empty(), is_reversed, s1);
}

/// The echo takes a word exactly when the words that `receive` then pushes
/// (the word itself, or a line feed and a carriage return for Enter) fit in
/// the 128-word buffer; an empty line takes every word, Enter included.
pub proof fn lemma_accepts_exactly_what_fits(len: nat, byte: u32)
    ensures
        accepts(len, byte) <==> len + (if byte == ENTER { 2int } else { 1int }) <= LINE_CAPACITY,
        accepts(0, byte),
        accepts(len + 1, byte) ==> accepts(len, byte),
{
}

} // verus!
