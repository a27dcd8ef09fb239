use vstd::prelude::*;

verus! {

/// Number of glyphs on the ramp.
pub const RAMP_LEN: u8 = 17;

/// The glyph ramp, from the emptiest glyph to the densest.
pub open spec fn ramp() -> Seq<char> {
    seq![' ', '.', '~', '+', '=', 'r', 'c', 'a', 'g', 'x', 'C', 'A', 'B', 'M', '%', '$', '#']
}

/// Width of one brightness bucket: `255 / N + 255 % N` for a ramp of `N` glyphs.
pub open spec fn bucket_width() -> int {
    255int / (RAMP_LEN as int) + 255int % (RAMP_LEN as int)
}

/// Position on the ramp of the glyph for a brightness: its bucket, held to the last glyph.
pub open spec fn glyph_index(intensity: int) -> int {
    let i = intensity / bucket_width();
    if i < RAMP_LEN as int { i } else { RAMP_LEN as int - 1 }
}

/// The glyph drawn for a brightness.
pub open spec fn glyph_of(intensity: int) -> char {
    ramp()[glyph_index(intensity)]
}

/// Every brightness maps onto the ramp; 0 takes the emptiest glyph and 255 the densest.
pub proof fn lemma_glyph_on_ramp(intensity: u8)
    ensures
        ramp().len() == RAMP_LEN,
        0 <= glyph_index(intensity as int) < ramp().len(),
        ramp().contains(glyph_of(intensity as int)),
        glyph_of(0) == ' ',
        glyph_of(255) == '#',
{
    assert(bucket_width() == 15);
    assert(ramp().len() == 17);
    let i = glyph_index(intensity as int);
    assert(ramp()[i] == glyph_of(intensity as int));
}

/// The one-glyph text drawn for a brightness.
pub fn get_ascii(intensity: u8) -> (glyph: &'static str)
    ensures
        glyph@ == seq![glyph_of(intensity as int)],
{
    let width: u8 = 255 / RAMP_LEN + 255 % RAMP_LEN;
    let mut index: u8 = intensity / width;
    if index >= RAMP_LEN {
        index = RAMP_LEN - 1;
    }
    assert(index as int == glyph_index(intensity as int));
    match index {
        0 => { proof { reveal_strlit(" "); } " " },
        1 => { proof { reveal_strlit("."); } "." },
        2 => { proof { reveal_strlit("~"); } "~" },
        3 => { proof { reveal_strlit("+"); } "+" },
        4 => { proof { reveal_strlit("="); } "=" },
        5 => { proof { reveal_strlit("r"); } "r" },
        6 => { proof { reveal_strlit("c"); } "c" },
        7 => { proof { reveal_strlit("a"); } "a" },
        8 => { proof { reveal_strlit("g"); } "g" },
        9 => { proof { reveal_strlit("x"); } "x" },
        10 => { proof { reveal_strlit("C"); } "C" },
        11 => { proof { reveal_strlit("A"); } "A" },
        12 => { proof { reveal_strlit("B"); } "B" },
        13 => { proof { reveal_strlit("M"); } "M" },
        14 => { proof { reveal_strlit("%"); } "%" },
        15 => { proof { reveal_strlit("$"); } "$" },
        _ => { proof { reveal_strlit("#"); } "#" },
    }
}

} // verus!
