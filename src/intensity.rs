use vstd::prelude::*;

verus! {

/// Sum of the squared channels, each weighted in thousandths
/// (red 241, green 691, blue 68; the weights add up to 1000).
pub open spec fn weighted_square_sum(r: u8, g: u8, b: u8) -> int {
    241 * (r as int) * (r as int) + 691 * (g as int) * (g as int) + 68 * (b as int) * (b as int)
}

/// `v` is the square root of `0.241 r² + 0.691 g² + 0.068 b²`, rounded down.
pub open spec fn is_intensity_of(v: int, r: u8, g: u8, b: u8) -> bool {
    &&& 0 <= v
    &&& 1000 * v * v <= weighted_square_sum(r, g, b)
    &&& weighted_square_sum(r, g, b) < 1000 * (v + 1) * (v + 1)
}

/// The perceptual brightness of a colour: the one `v` with `is_intensity_of(v, r, g, b)`.
pub open spec fn intensity(r: u8, g: u8, b: u8) -> int {
    choose|v: int| is_intensity_of(v, r, g, b)
}

/// At most one value is the rounded-down root.
pub proof fn lemma_intensity_unique(v1: int, v2: int, r: u8, g: u8, b: u8)
    requires
        is_intensity_of(v1, r, g, b),
        is_intensity_of(v2, r, g, b),
    ensures
        v1 == v2,
{
    let s = weighted_square_sum(r, g, b);
    if v1 < v2 {
        assert(1000 * (v1 + 1) * (v1 + 1) <= 1000 * v2 * v2) by (nonlinear_arith)
            requires 0 <= v1 < v2;
    } else if v2 < v1 {
        assert(1000 * (v2 + 1) * (v2 + 1) <= 1000 * v1 * v1) by (nonlinear_arith)
            requires 0 <= v2 < v1;
    }
}

/// Once some `v` is the rounded-down root, `intensity` names it.
pub proof fn lemma_intensity_is(v: int, r: u8, g: u8, b: u8)
    requires
        is_intensity_of(v, r, g, b),
    ensures
        intensity(r, g, b) == v,
{
    assert(is_intensity_of(intensity(r, g, b), r, g, b));
    lemma_intensity_unique(v, intensity(r, g, b), r, g, b);
}

/// Walks up from `k` to the rounded-down root of `s / 1000`.
proof fn root_from(s: int, k: int) -> (v: int)
    requires
        0 <= k,
        1000 * k * k <= s,
        s < 1000 * 256 * 256,
    ensures
        0 <= v,
        1000 * v * v <= s,
        s < 1000 * (v + 1) * (v + 1),
    decreases 256 - k,
{
    assert(k < 256) by (nonlinear_arith)
        requires 0 <= k, 1000 * k * k <= s, s < 1000 * 256 * 256;
    if s < 1000 * (k + 1) * (k + 1) {
        k
    } else {
        root_from(s, k + 1)
    }
}

/// Every colour has a brightness, and it lies in `0..=255`.
pub proof fn lemma_intensity_in_range(r: u8, g: u8, b: u8)
    ensures
        is_intensity_of(intensity(r, g, b), r, g, b),
        0 <= intensity(r, g, b) <= 255,
{
    let s = weighted_square_sum(r, g, b);
    assert(s <= 1000 * 255 * 255) by (nonlinear_arith)
        requires s == weighted_square_sum(r, g, b), r <= 255, g <= 255, b <= 255;
    let v = root_from(s, 0);
    lemma_intensity_is(v, r, g, b);
    assert(v <= 255) by (nonlinear_arith)
        requires 0 <= v, 1000 * v * v <= s, s <= 1000 * 255 * 255;
}

/// Raising any channel, with the others held, never lowers the brightness.
pub proof fn lemma_intensity_monotone(r1: u8, g1: u8, b1: u8, r2: u8, g2: u8, b2: u8)
    requires
        r1 <= r2,
        g1 <= g2,
        b1 <= b2,
    ensures
        intensity(r1, g1, b1) <= intensity(r2, g2, b2),
{
    lemma_intensity_in_range(r1, g1, b1);
    lemma_intensity_in_range(r2, g2, b2);
    let v1 = intensity(r1, g1, b1);
    let v2 = intensity(r2, g2, b2);
    let s1 = weighted_square_sum(r1, g1, b1);
    let s2 = weighted_square_sum(r2, g2, b2);
    assert(s1 <= s2) by (nonlinear_arith)
        requires
            s1 == weighted_square_sum(r1, g1, b1),
            s2 == weighted_square_sum(r2, g2, b2),
            r1 <= r2, g1 <= g2, b1 <= b2;
    if v2 < v1 {
        assert(1000 * (v2 + 1) * (v2 + 1) <= 1000 * v1 * v1) by (nonlinear_arith)
            requires 0 <= v2 < v1;
    }
}

/// The perceptual brightness of a pixel, from its red, green and blue channels;
/// the fourth channel is not read.
pub fn calculate_intensity(pix: (&u8, &u8, &u8, &u8)) -> (v: u8)
    ensures
        v as int == intensity(*pix.0, *pix.1, *pix.2),
        is_intensity_of(v as int, *pix.0, *pix.1, *pix.2),
{
    let r: u32 = *pix.0 as u32;
    let g: u32 = *pix.1 as u32;
    let b: u32 = *pix.2 as u32;
    assert(r * r <= 65025 && g * g <= 65025 && b * b <= 65025) by (nonlinear_arith)
        requires r <= 255, g <= 255, b <= 255;
    let s: u32 = 241 * (r * r) + 691 * (g * g) + 68 * (b * b);
    assert(s as int == weighted_square_sum(*pix.0, *pix.1, *pix.2)) by (nonlinear_arith)
        requires
            s == 241 * (r * r) + 691 * (g * g) + 68 * (b * b),
            r == *pix.0 as u32, g == *pix.1 as u32, b == *pix.2 as u32;
    let mut lo: u32 = 0;
    let mut hi: u32 = 256;
    while hi - lo > 1
        invariant
            lo < hi <= 256,
            s <= 65025000,
            1000 * (lo as int) * (lo as int) <= s,
            s < 1000 * (hi as int) * (hi as int),
        decreases hi - lo,
    {
        let mid: u32 = lo + (hi - lo) / 2;
        assert(mid * mid <= 65025) by (nonlinear_arith)
            requires mid <= 255;
        assert(1000 * (mid as int) * (mid as int) == 1000 * ((mid * mid) as int)) by (nonlinear_arith);
        if 1000 * (mid * mid) <= s {
            lo = mid;
        } else {
            hi = mid;
        }
    }
    proof {
        lemma_intensity_is(lo as int, *pix.0, *pix.1, *pix.2);
    }
    lo as u8
}

} // verus!
