use vstd::prelude::*;

verus! {

/// The value that the transmit data register (TDR) receives for a character:
/// its code point cut to the low 16 bits, as `c as u16` gives it.
pub open spec fn char_frame(c: char) -> u16 {
    ((c as u32) % 0x1_0000) as u16
}

/// The value that TDR receives for a 32-bit word: its low 16 bits.
pub open spec fn word_frame(w: u32) -> u16 {
    (w % 0x1_0000) as u16
}

/// The TDR value for one character.
pub fn tdr_frame_of_char(c: char) -> (r: u16)
    ensures
        r == char_frame(c),
{
    let code = c as u32;
    (code % 0x1_0000) as u16
}

/// The TDR value for one word.
pub fn tdr_frame_of_word(w: u32) -> (r: u16)
    ensures
        r == word_frame(w),
{
    (w % 0x1_0000) as u16
}

/// The TDR values that send `s`, one per character, in order.
pub fn tdr_frames_of_str(s: &str) -> (r: Vec<u16>)
    ensures
        r@ == s@.map_values(|c: char| char_frame(c)),
{
    broadcast use vstd::string::group_string_axioms;

    let mut frames: Vec<u16> = Vec::new();
    for c in it: s.chars()
        invariant
            it.seq() == s@,
            frames@ == s@.take(it.index() as int).map_values(|c: char| char_frame(c)),
    {
        frames.push(tdr_frame_of_char(c));
        assert(frames@ =~= s@.take(it.index() + 1).map_values(|c: char| char_frame(c)));
    }
    assert(s@.take(s@.len() as int) =~= s@);
    frames
}

/// The TDR values that send the words of `arr`, one per word, in order.
pub fn tdr_frames_of_words(arr: &[u32]) -> (r: Vec<u16>)
    ensures
        r@ == arr@.map_values(|w: u32| word_frame(w)),
{
    let mut frames: Vec<u16> = Vec::new();
    let mut i: usize = 0;
    while i < arr.len()
        invariant
            i <= arr@.len(),
            frames@ == arr@.take(i as int).map_values(|w: u32| word_frame(w)),
        decreases arr@.len() - i,
    {
        frames.push(tdr_frame_of_word(arr[i]));
        i = i + 1;
        assert(frames@ =~= arr@.take(i as int).map_values(|w: u32| word_frame(w)));
    }
    assert(arr@.take(arr@.len() as int) =~= arr@);
    frames
}

/// A character below U+10000 (every ASCII character among them) is sent as
/// its own code point; so is any word below 65536.
pub proof fn lemma_small_codes_sent_unchanged(c: char, w: u32)
    ensures
        (c as u32) < 0x1_0000 ==> char_frame(c) == c as u32,
        w < 0x1_0000 ==> word_frame(w) == w,
{
}

/// A frame keeps the low 16 bits of the code: the code is the frame plus a
/// whole number of 65536s, and the frame is below 65536.
pub proof fn lemma_frames_keep_low_bits(c: char, w: u32)
    ensures
        (c as u32) as int == char_frame(c) as int + 0x1_0000 * ((c as u32) as int / 0x1_0000),
        w as int == word_frame(w) as int + 0x1_0000 * (w as int / 0x1_0000),
{
}

} // verus!
