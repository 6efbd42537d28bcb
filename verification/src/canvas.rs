//! The frame buffer: rows of pixels from the top down, four bytes a pixel,
//! and the painting of runs of pixels into it.
//!
//! A pixel is named by its index in the buffer, counted row by row. Painting
//! never fails: a pixel that the buffer cannot hold is left out.

use vstd::prelude::*;
use crate::color::Rgba;

verus! {

/// The byte of `color` for channel `c`, counted from red.
pub open spec fn channel(color: Rgba, c: int) -> u8 {
    if c == 0 {
        color.0
    } else if c == 1 {
        color.1
    } else if c == 2 {
        color.2
    } else {
        color.3
    }
}

/// Whether a buffer of `len` bytes takes a write of the pixel `pixel`: its
/// four bytes must end before the last byte of the buffer.
pub open spec fn writable(len: nat, pixel: int) -> bool {
    0 <= pixel && 4 * pixel + 4 < len
}

/// How many pixels of a buffer of `len` bytes can be written: the pixels
/// below this index, and no others.
pub open spec fn writable_pixels(len: nat) -> int {
    if len == 0 {
        0
    } else {
        (len - 1) / 4
    }
}

/// The frame after the pixels in `pixels` were painted in `color`: every
/// writable pixel among them holds the colour, every other byte is as before.
pub open spec fn painted(frame: Seq<u8>, pixels: Set<int>, color: Rgba) -> Seq<u8> {
    Seq::new(
        frame.len(),
        |k: int|
            if pixels.contains(k / 4) && writable(frame.len(), k / 4) {
                channel(color, k % 4)
            } else {
                frame[k]
            },
    )
}

/// The pixels from `first` up to, not including, `end`.
pub open spec fn run(first: int, end: int) -> Set<int> {
    Set::new(|q: int| first <= q < end)
}

/// Painting nothing changes nothing.
pub proof fn lemma_painted_empty(frame: Seq<u8>, color: Rgba)
    ensures
        painted(frame, Set::empty(), color) == frame,
{
    assert(painted(frame, Set::empty(), color) =~= frame);
}

/// Painting two sets of pixels in one colour, one after the other, is
/// painting their union.
pub proof fn lemma_painted_union(frame: Seq<u8>, a: Set<int>, b: Set<int>, color: Rgba)
    ensures
        painted(painted(frame, a, color), b, color) == painted(frame, a.union(b), color),
{
    assert(painted(painted(frame, a, color), b, color) =~= painted(frame, a.union(b), color));
}

/// Writes `color` into the four bytes of the pixel `pixel`, if the buffer
/// takes it.
pub fn put_pixel(frame: &mut [u8], pixel: usize, color: Rgba)
    ensures
        final(frame)@ == painted(old(frame)@, set![pixel as int], color),
{
    let len = frame.len();
    if len > 0 && pixel < (len - 1) / 4 {
        let i: usize = pixel * 4;
        frame[i] = color.0;
        frame[i + 1] = color.1;
        frame[i + 2] = color.2;
        frame[i + 3] = color.3;
    }
    assert(frame@ =~= painted(old(frame)@, set![pixel as int], color));
}

/// Paints the pixels from `first` up to, not including, `end`, as far as the
/// buffer takes them.
pub fn fill_run(frame: &mut [u8], first: u128, end: u128, color: Rgba)
    ensures
        final(frame)@ == painted(old(frame)@, run(first as int, end as int), color),
{
    let len = frame.len();
    let limit: usize = if len == 0 {
        0
    } else {
        (len - 1) / 4
    };
    if first >= end || first >= limit as u128 {
        assert(frame@ =~= painted(old(frame)@, run(first as int, end as int), color));
        return ;
    }
    let stop: usize = if end < limit as u128 {
        end as usize
    } else {
        limit
    };
    let mut q: usize = first as usize;
    while q < stop
        invariant
            first <= q <= stop <= limit,
            stop <= end,
            stop == end || stop == limit,
            limit == writable_pixels(len as nat),
            frame@.len() == len,
            frame@ == painted(old(frame)@, run(first as int, q as int), color),
        decreases stop - q,
    {
        let i: usize = q * 4;
        frame[i] = color.0;
        frame[i + 1] = color.1;
        frame[i + 2] = color.2;
        frame[i + 3] = color.3;
        q += 1;
        assert(frame@ =~= painted(old(frame)@, run(first as int, q as int), color));
    }
    assert(frame@ =~= painted(old(frame)@, run(first as int, end as int), color));
}

/// Whether the pixel `q` lies in the row `y` of a shape, between the columns
/// `x0` and `x1`, on a screen `sh` pixels high and `sw` wide. Shapes count
/// their rows from the ground up: row `y` is the screen's row `sh - y`, and a
/// row above the screen's top holds no pixel. Columns are not cut off at the
/// screen's edge: one beyond it names a pixel of the next row.
pub open spec fn in_row(q: int, x0: int, x1: int, y: int, sh: int, sw: int) -> bool {
    y <= sh && x0 + (sh - y) * sw <= q < x1 + (sh - y) * sw
}

/// The pixels of the row `y` between the columns `x0` and `x1`.
pub open spec fn row(x0: int, x1: int, y: int, sh: int, sw: int) -> Set<int> {
    Set::new(|q: int| in_row(q, x0, x1, y, sh, sw))
}

/// The pixels of the rectangle that spans the columns from `x0` up to `x1`
/// and the rows from `y0` up to `y1`, rows counted from the ground up.
pub open spec fn rect(x0: int, x1: int, y0: int, y1: int, sh: int, sw: int) -> Set<int> {
    Set::new(|q: int| exists|y: int| y0 <= y < y1 && #[trigger] in_row(q, x0, x1, y, sh, sw))
}

/// Paints the row `y`, counted from the ground up, between the columns `x0`
/// and `x1`.
pub fn fill_row(frame: &mut [u8], x0: u64, x1: u64, y: u64, sh: u32, sw: u32, color: Rgba)
    ensures
        final(frame)@ == painted(
            old(frame)@,
            row(x0 as int, x1 as int, y as int, sh as int, sw as int),
            color,
        ),
{
    if y > sh as u64 {
        assert(row(x0 as int, x1 as int, y as int, sh as int, sw as int) =~= Set::empty());
        proof {
            lemma_painted_empty(frame@, color);
        }
        return ;
    }
    let up: u128 = (sh as u64 - y) as u128;
    assert(0 <= up * (sw as u128) <= 0xffff_ffff * 0xffff_ffff) by (nonlinear_arith)
        requires
            0 <= up <= 0xffff_ffff,
            0 <= sw <= 0xffff_ffff,
    ;
    let base: u128 = up * (sw as u128);
    assert(base == (sh - y) * sw);
    fill_run(frame, x0 as u128 + base, x1 as u128 + base, color);
    assert(row(x0 as int, x1 as int, y as int, sh as int, sw as int) =~= run(
        x0 + base,
        x1 + base,
    ));
}

/// Paints the rectangle that spans the columns from `x0` up to `x1` and the
/// rows from `y0` up to `y1`, rows counted from the ground up.
pub fn fill_rect(
    frame: &mut [u8],
    x0: u64,
    x1: u64,
    y0: u64,
    y1: u64,
    sh: u32,
    sw: u32,
    color: Rgba,
)
    ensures
        final(frame)@ == painted(
            old(frame)@,
            rect(x0 as int, x1 as int, y0 as int, y1 as int, sh as int, sw as int),
            color,
        ),
{
    let top: u64 = if y1 <= sh as u64 {
        y1
    } else {
        sh as u64 + 1
    };
    let mut y: u64 = if y0 <= top {
        y0
    } else {
        top
    };
    proof {
        assert(rect(x0 as int, x1 as int, y0 as int, y as int, sh as int, sw as int)
            =~= Set::empty());
        lemma_painted_empty(frame@, color);
    }
    while y < top
        invariant
            y <= top <= y1,
            y0 <= y || y == top,
            top == y1 || top == sh + 1,
            frame@ == painted(
                old(frame)@,
                rect(x0 as int, x1 as int, y0 as int, y as int, sh as int, sw as int),
                color,
            ),
        decreases top - y,
    {
        fill_row(frame, x0, x1, y, sh, sw, color);
        proof {
            let done = rect(x0 as int, x1 as int, y0 as int, y as int, sh as int, sw as int);
            let this = row(x0 as int, x1 as int, y as int, sh as int, sw as int);
            lemma_painted_union(old(frame)@, done, this, color);
            assert(done.union(this) =~= rect(
                x0 as int,
                x1 as int,
                y0 as int,
                y + 1,
                sh as int,
                sw as int,
            ));
        }
        y += 1;
    }
    assert(rect(x0 as int, x1 as int, y0 as int, y as int, sh as int, sw as int) =~= rect(
        x0 as int,
        x1 as int,
        y0 as int,
        y1 as int,
        sh as int,
        sw as int,
    ));
}

} // verus!
