//! Blending of two RGBA colours.

use vstd::prelude::*;
use vstd::arithmetic::div_mod::{lemma_div_is_ordered, lemma_div_multiples_vanish};

verus! {

/// A colour as red, green, blue and alpha, one byte each.
pub type Rgba = (u8, u8, u8, u8);

/// The sum whose quotient by `range` is the blend of one channel: `start`
/// weighted by what is left of the range after `index`, `end` by `index`.
pub open spec fn lerp_weighted(start: u8, end: u8, index: u8, range: u8) -> int {
    start * (range - index) + end * index
}

/// One channel of the blend of `start` and `end` at `index / range` of the
/// way: the exact value `start + (end - start) * index / range`, with its
/// fraction dropped, and held to a byte where `index` lies beyond `range`.
/// A `range` of zero gives zero.
pub open spec fn lerp_channel(start: u8, end: u8, index: u8, range: u8) -> u8 {
    let weighted = lerp_weighted(start, end, index, range);
    if range == 0 || weighted < 0 {
        0u8
    } else if weighted / (range as int) > 255 {
        255u8
    } else {
        (weighted / (range as int)) as u8
    }
}

/// The blend of two colours, channel by channel.
pub open spec fn lerp_rgba(start: Rgba, end: Rgba, index: u8, range: u8) -> Rgba {
    (
        lerp_channel(start.0, end.0, index, range),
        lerp_channel(start.1, end.1, index, range),
        lerp_channel(start.2, end.2, index, range),
        lerp_channel(start.3, end.3, index, range),
    )
}

/// Whether no channel of `a` is above that channel of `b`.
pub open spec fn rgba_le(a: Rgba, b: Rgba) -> bool {
    a.0 <= b.0 && a.1 <= b.1 && a.2 <= b.2 && a.3 <= b.3
}

fn lerp_u8(start: u8, end: u8, index: u8, range: u8) -> (r: u8)
    ensures
        r == lerp_channel(start, end, index, range),
{
    if range == 0 {
        return 0;
    }
    let s: i32 = start as i32;
    let e: i32 = end as i32;
    let i: i32 = index as i32;
    let left: i32 = range as i32 - i;
    assert(-65025 <= s * left <= 65025) by (nonlinear_arith)
        requires
            0 <= s <= 255,
            -255 <= left <= 255,
    ;
    assert(0 <= e * i <= 65025) by (nonlinear_arith)
        requires
            0 <= e <= 255,
            0 <= i <= 255,
    ;
    let weighted: i32 = s * left + e * i;
    if weighted < 0 {
        0
    } else {
        let q: u32 = weighted as u32 / range as u32;
        if q > 255 {
            255
        } else {
            q as u8
        }
    }
}

/// Blends `start` and `end` at `index / height` of the way from the first to
/// the second, each channel by itself, dropping fractions.
pub fn lerp_rgba_u8(start: Rgba, end: Rgba, index: u8, height: u8) -> (res: Rgba)
    ensures
        res == lerp_rgba(start, end, index, height),
{
    (
        lerp_u8(start.0, end.0, index, height),
        lerp_u8(start.1, end.1, index, height),
        lerp_u8(start.2, end.2, index, height),
        lerp_u8(start.3, end.3, index, height),
    )
}

/// At the start of the range a channel has the first colour's value, at its
/// end the second's.
pub proof fn lemma_lerp_channel_ends(start: u8, end: u8, range: u8)
    requires
        range > 0,
    ensures
        lerp_channel(start, end, 0, range) == start,
        lerp_channel(start, end, range, range) == end,
{
    lemma_div_multiples_vanish(start as int, range as int);
    lemma_div_multiples_vanish(end as int, range as int);
    assert(lerp_weighted(start, end, 0, range) == range * start) by (nonlinear_arith)
        requires
            lerp_weighted(start, end, 0, range) == start * (range - 0) + end * 0,
    ;
    assert(lerp_weighted(start, end, range, range) == range * end) by (nonlinear_arith)
        requires
            lerp_weighted(start, end, range, range) == start * (range - range) + end * range,
    ;
}

/// From a lower value to a higher one a channel never falls as the index
/// grows, and it stays between the two.
pub proof fn lemma_lerp_channel_monotonic(start: u8, end: u8, i: u8, j: u8, range: u8)
    requires
        start <= end,
        i <= j <= range,
        range > 0,
    ensures
        start <= lerp_channel(start, end, i, range),
        lerp_channel(start, end, i, range) <= lerp_channel(start, end, j, range),
        lerp_channel(start, end, j, range) <= end,
{
    let n = range as int;
    let wi = lerp_weighted(start, end, i, range);
    let wj = lerp_weighted(start, end, j, range);
    assert(n * start <= wi && wi <= wj && wj <= n * end) by (nonlinear_arith)
        requires
            wi == start * (n - i) + end * i,
            wj == start * (n - j) + end * j,
            0 <= start <= end,
            0 <= i <= j <= n,
    ;
    lemma_div_multiples_vanish(start as int, n);
    lemma_div_multiples_vanish(end as int, n);
    lemma_div_is_ordered(n * start, wi, n);
    lemma_div_is_ordered(wi, wj, n);
    lemma_div_is_ordered(wj, n * end, n);
}

/// A blend starts at the first colour and ends at the second.
pub proof fn lemma_lerp_ends(start: Rgba, end: Rgba, range: u8)
    requires
        range > 0,
    ensures
        lerp_rgba(start, end, 0, range) == start,
        lerp_rgba(start, end, range, range) == end,
{
    lemma_lerp_channel_ends(start.0, end.0, range);
    lemma_lerp_channel_ends(start.1, end.1, range);
    lemma_lerp_channel_ends(start.2, end.2, range);
    lemma_lerp_channel_ends(start.3, end.3, range);
}

/// Between a colour and one that is nowhere below it, a blend never falls in
/// any channel as the index grows, and stays between the two.
pub proof fn lemma_lerp_monotonic(start: Rgba, end: Rgba, i: u8, j: u8, range: u8)
    requires
        rgba_le(start, end),
        i <= j <= range,
        range > 0,
    ensures
        rgba_le(start, lerp_rgba(start, end, i, range)),
        rgba_le(lerp_rgba(start, end, i, range), lerp_rgba(start, end, j, range)),
        rgba_le(lerp_rgba(start, end, j, range), end),
{
    lemma_lerp_channel_monotonic(start.0, end.0, i, j, range);
    lemma_lerp_channel_monotonic(start.1, end.1, i, j, range);
    lemma_lerp_channel_monotonic(start.2, end.2, i, j, range);
    lemma_lerp_channel_monotonic(start.3, end.3, i, j, range);
}

} // verus!
