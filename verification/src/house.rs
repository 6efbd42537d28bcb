//! A house: a dark body under a pointed roof, with a grid of windows.
//!
//! A house keeps its own clock. It reads `BACKDATE_MS` when the house is
//! built, so that a window can have been lit since before that moment.

use vstd::prelude::*;
use web_time::Instant;
use crate::canvas::{fill_rect, fill_row, in_row, lemma_painted_union, painted, rect, row};
use crate::chance::{random_bool, random_in};
use crate::clock::millis_since;
use crate::color::Rgba;
use crate::window::{Window, MAX_LIT_MS, MIN_LIT_MS, WINDOW_SIZE};

verus! {

/// The least space between two windows, in pixels.
pub const MIN_PADDING: u32 = 3;

/// The space between two windows that is never reached, in pixels.
pub const MAX_PADDING: u32 = 5;

/// The least width and the least height of a house: with either below it, a
/// window may not fit.
pub const MIN_SIDE: u32 = 9;

/// The longest time, in milliseconds, that a window of a new house can have
/// been in its state, and the reading of a house's clock when it is built.
pub const BACKDATE_MS: u64 = 20_000;

/// The colour of a house.
pub open spec fn house_color() -> Rgba {
    (0u8, 0u8, 0u8, 0xffu8)
}

/// The space that one window takes along a side, with the padding beside it.
pub open spec fn cell(padding: u32) -> int {
    WINDOW_SIZE + padding
}

/// How many windows fit along a side of length `side`.
pub open spec fn windows_along(side: u32, padding: u32) -> int {
    side as int / cell(padding)
}

/// Where the first window begins along a side of length `side`: half the
/// share of the side that each window has, less half the padding.
pub open spec fn margin(side: u32, padding: u32) -> int {
    side as int / windows_along(side, padding) / 2 - padding as int / 2
}

/// The lower left corner of the `k`-th window of a house, columns from left
/// to right and, within a column, windows from the ground up.
pub open spec fn slot(width: u32, height: u32, padding: u32, k: int) -> (u32, u32) {
    let rows = windows_along(height, padding);
    (
        (margin(width, padding) + (k / rows) * cell(padding)) as u32,
        (margin(height, padding) + (k % rows) * cell(padding)) as u32,
    )
}

/// The lower left corners of all windows of a house of the given size.
pub open spec fn slots(width: u32, height: u32, padding: u32) -> Seq<(u32, u32)> {
    Seq::new(
        (windows_along(width, padding) * windows_along(height, padding)) as nat,
        |k: int| slot(width, height, padding, k),
    )
}

/// Whether a padding is one that a house can have, and leaves room for a
/// window along a side of length `side`.
pub open spec fn padding_fits(side: u32, padding: u32) -> bool {
    MIN_PADDING <= padding < MAX_PADDING && cell(padding) <= side
}

/// Along a side that has room for one window, at least one fits, each has
/// a share of the side that is no less than a cell, and the first begins
/// within the side.
proof fn lemma_share_along(side: u32, padding: u32)
    requires
        padding_fits(side, padding),
    ensures
        1 <= windows_along(side, padding) <= side,
        cell(padding) <= side as int / windows_along(side, padding) <= side,
        windows_along(side, padding) * (side as int / windows_along(side, padding)) <= side,
        0 <= margin(side, padding) <= side,
{
    let c = cell(padding);
    let n = windows_along(side, padding);
    let share = side as int / n;
    assert(1 <= n <= side && n * c <= side) by (nonlinear_arith)
        requires
            n == side as int / c,
            0 < c <= side,
    ;
    assert(c <= share <= side && n * share <= side) by (nonlinear_arith)
        requires
            share == side as int / n,
            n >= 1,
            n * c <= side,
            0 <= side,
    ;
}

/// Along one side, every window of the grid ends within the side.
proof fn lemma_window_fits_along(side: u32, padding: u32, i: int)
    requires
        padding_fits(side, padding),
        0 <= i < windows_along(side, padding),
    ensures
        0 <= i * cell(padding),
        margin(side, padding) + i * cell(padding) + WINDOW_SIZE <= side,
{
    let c = cell(padding);
    let n = windows_along(side, padding);
    let share = side as int / n;
    lemma_share_along(side, padding);
    assert(0 <= i * c <= (n - 1) * share) by (nonlinear_arith)
        requires
            0 <= i <= n - 1,
            0 < c <= share,
    ;
    assert((n - 1) * share + share == n * share) by (nonlinear_arith);
}

/// Every window of the grid lies within the house.
pub proof fn lemma_slots_fit(width: u32, height: u32, padding: u32)
    requires
        padding_fits(width, padding),
        padding_fits(height, padding),
    ensures
        slots(width, height, padding).len() >= 1,
        forall|k: int|
            0 <= k < slots(width, height, padding).len() ==> {
                let at = #[trigger] slots(width, height, padding)[k];
                at.0 + WINDOW_SIZE <= width && at.1 + WINDOW_SIZE <= height
            },
{
    let columns = windows_along(width, padding);
    let rows = windows_along(height, padding);
    lemma_share_along(width, padding);
    lemma_share_along(height, padding);
    assert(columns * rows >= 1) by (nonlinear_arith)
        requires
            columns >= 1,
            rows >= 1,
    ;
    assert forall|k: int| 0 <= k < slots(width, height, padding).len() implies {
        let at = #[trigger] slots(width, height, padding)[k];
        at.0 + WINDOW_SIZE <= width && at.1 + WINDOW_SIZE <= height
    } by {
        assert(0 <= k / rows < columns && 0 <= k % rows < rows) by (nonlinear_arith)
            requires
                0 <= k < columns * rows,
                rows >= 1,
        ;
        lemma_window_fits_along(width, padding, k / rows);
        lemma_window_fits_along(height, padding, k % rows);
    }
}

/// The lower left corners of the windows of a house of the given size, for
/// a given padding between them.
pub fn window_slots(width: u32, height: u32, padding: u32) -> (corners: Vec<(u32, u32)>)
    requires
        padding_fits(width, padding),
        padding_fits(height, padding),
    ensures
        corners@ == slots(width, height, padding),
{
    let step: u32 = WINDOW_SIZE + padding;
    let columns: u32 = width / step;
    let rows: u32 = height / step;
    proof {
        lemma_share_along(width, padding);
        lemma_share_along(height, padding);
    }
    let left: u32 = width / columns / 2 - padding / 2;
    let lower: u32 = height / rows / 2 - padding / 2;
    let mut corners: Vec<(u32, u32)> = Vec::new();
    let mut column: u32 = 0;
    while column < columns
        invariant
            padding_fits(width, padding),
            padding_fits(height, padding),
            step == cell(padding),
            columns == windows_along(width, padding),
            rows == windows_along(height, padding),
            rows >= 1,
            left == margin(width, padding),
            lower == margin(height, padding),
            column <= columns,
            corners@.len() == column * rows,
            forall|k: int|
                0 <= k < corners@.len() ==> corners@[k] == slot(width, height, padding, k),
        decreases columns - column,
    {
        proof {
            lemma_window_fits_along(width, padding, column as int);
        }
        let window_x: u32 = left + column * step;
        let mut r: u32 = 0;
        while r < rows
            invariant
                padding_fits(width, padding),
                padding_fits(height, padding),
                step == cell(padding),
                rows == windows_along(height, padding),
                rows >= 1,
                lower == margin(height, padding),
                window_x == margin(width, padding) + column * cell(padding),
                column < columns,
                r <= rows,
                corners@.len() == column * rows + r,
                forall|k: int|
                    0 <= k < corners@.len() ==> corners@[k] == slot(width, height, padding, k),
            decreases rows - r,
        {
            proof {
                lemma_window_fits_along(height, padding, r as int);
                let k = column * rows + r;
                assert(k / (rows as int) == column && k % (rows as int) == r)
                    by (nonlinear_arith)
                    requires
                        k == column * rows + r,
                        0 <= r < rows,
                        0 <= column,
                ;
            }
            let window_y: u32 = lower + r * step;
            corners.push((window_x, window_y));
            r += 1;
        }
        column += 1;
        assert(column * rows == (column - 1) * rows + rows) by (nonlinear_arith);
    }
    assert(corners@ =~= slots(width, height, padding));
    corners
}

/// A house as contracts see it.
pub struct HouseView {
    /// The column of the house's left edge.
    pub x: u32,
    pub width: u32,
    pub height: u32,
    pub windows: Seq<Window>,
}

/// Whether the pixel `q` lies in the row `y` of a roof, rows counted from the
/// roof's base. Each row is narrower than the one below it by a pixel at
/// either end.
pub open spec fn in_roof_row(q: int, house: HouseView, y: int, sh: int, sw: int) -> bool {
    in_row(q, house.x + y, house.x + house.width - y, house.height + y, sh, sw)
}

impl HouseView {
    /// Whether every window lies within the house, has the fixed size, and
    /// keeps its state for an admissible time.
    pub open spec fn wf(self) -> bool {
        forall|i: int|
            0 <= i < self.windows.len() ==> {
                let window = #[trigger] self.windows[i];
                &&& window.width == WINDOW_SIZE
                &&& window.height == WINDOW_SIZE
                &&& window.x + window.width <= self.width
                &&& window.y + window.height <= self.height
                &&& MIN_LIT_MS <= window.lit_duration < MAX_LIT_MS
            }
    }

    /// Whether the windows stand on the grid for the given padding.
    pub open spec fn laid_out(self, padding: u32) -> bool {
        &&& self.windows.len() == slots(self.width, self.height, padding).len()
        &&& forall|i: int|
            0 <= i < self.windows.len() ==> {
                let window = #[trigger] self.windows[i];
                (window.x, window.y) == slots(self.width, self.height, padding)[i]
            }
    }

    /// Whether every window has been in its state for less than
    /// `BACKDATE_MS` when the house's clock reads `BACKDATE_MS`.
    pub open spec fn newly_built(self) -> bool {
        forall|i: int|
            0 <= i < self.windows.len() ==> 0 < (#[trigger] self.windows[i]).lit_since
                <= BACKDATE_MS
    }

    /// The pixels of the body on a screen `sh` pixels high and `sw` wide: the
    /// rows from the second above the ground up to the house's height.
    pub open spec fn body(self, sh: u32, sw: u32) -> Set<int> {
        rect(self.x as int, self.x + self.width, 1, self.height as int, sh as int, sw as int)
    }

    /// The pixels of the first `rows` rows of the roof.
    pub open spec fn roof_rows(self, rows: int, sh: u32, sw: u32) -> Set<int> {
        Set::new(
            |q: int|
                exists|y: int|
                    0 <= y < rows && #[trigger] in_roof_row(q, self, y, sh as int, sw as int),
        )
    }

    /// The pixels of the roof, which is half as high as the house is wide.
    pub open spec fn roof(self, sh: u32, sw: u32) -> Set<int> {
        self.roof_rows(self.width as int / 2, sh, sw)
    }

    /// The frame after the first `n` windows were drawn into it, in order.
    pub open spec fn windows_drawn(self, frame: Seq<u8>, n: int, sh: u32, sw: u32, now: u64) -> Seq<
        u8,
    >
        decreases n,
    {
        if n <= 0 {
            frame
        } else {
            self.windows[n - 1].drawn(
                self.windows_drawn(frame, n - 1, sh, sw, now),
                sh,
                sw,
                self.x,
                now,
            )
        }
    }

    /// The frame after the house was drawn into it at `now`: body and roof
    /// in the house's colour, and over them the windows.
    pub open spec fn drawn(self, frame: Seq<u8>, sh: u32, sw: u32, now: u64) -> Seq<u8> {
        self.windows_drawn(
            painted(frame, self.body(sh, sw).union(self.roof(sh, sw)), house_color()),
            self.windows.len() as int,
            sh,
            sw,
            now,
        )
    }

    /// Whether `after` is this house after a tick at some reading of its
    /// clock.
    pub open spec fn ticked(self, after: HouseView) -> bool {
        exists|now: u64| now >= BACKDATE_MS && self.ticked_to(after, now)
    }

    /// Whether `after` is this house after a tick at `now`: the same house,
    /// each window changed if it was due.
    pub open spec fn ticked_to(self, after: HouseView, now: u64) -> bool {
        &&& after.x == self.x
        &&& after.width == self.width
        &&& after.height == self.height
        &&& after.windows.len() == self.windows.len()
        &&& forall|i: int|
            0 <= i < self.windows.len() ==> (#[trigger] self.windows[i]).ticked_to(
                after.windows[i],
                now,
            )
    }
}

/// Of two ticks of a house that are no further apart than the shortest time
/// a state lasts, at most one changes any one window.
pub proof fn lemma_house_changes_once(
    before: HouseView,
    between: HouseView,
    after: HouseView,
    first: u64,
    second: u64,
    i: int,
)
    requires
        before.ticked_to(between, first),
        between.ticked_to(after, second),
        first <= second,
        second - first <= MIN_LIT_MS,
        0 <= i < before.windows.len(),
    ensures
        between.windows[i] == before.windows[i] || after.windows[i] == between.windows[i],
{
    assert(before.windows[i].ticked_to(between.windows[i], first));
    assert(between.windows[i].ticked_to(after.windows[i], second));
}

/// A house. Its shape is fixed when it is built; only its windows change,
/// between lit and dark.
pub struct House {
    x: u32,
    width: u32,
    height: u32,
    windows: Vec<Window>,
    built: Instant,
}

impl View for House {
    type V = HouseView;

    closed spec fn view(&self) -> HouseView {
        HouseView { x: self.x, width: self.width, height: self.height, windows: self.windows@ }
    }
}

impl House {
    /// Builds a house with its left edge at column `x`. The padding between
    /// its windows is drawn at random, and so is, for each window, whether it
    /// is lit, for how long it has been, and for how long it stays so.
    pub fn new(x: u32, width: u32, height: u32) -> (house: House)
        requires
            MIN_SIDE <= width,
            MIN_SIDE <= height,
        ensures
            house@.x == x,
            house@.width == width,
            house@.height == height,
            house@.wf(),
            house@.newly_built(),
            house@.windows.len() >= 1,
            exists|padding: u32| MIN_PADDING <= padding < MAX_PADDING && house@.laid_out(padding),
    {
        let mut rng = rand::thread_rng();
        let padding: u32 = random_in(&mut rng, MIN_PADDING as i64, MAX_PADDING as i64) as u32;
        let corners = window_slots(width, height, padding);
        proof {
            lemma_slots_fit(width, height, padding);
        }
        let mut windows: Vec<Window> = Vec::new();
        let mut i: usize = 0;
        while i < corners.len()
            invariant
                i <= corners.len(),
                corners@ == slots(width, height, padding),
                forall|k: int|
                    0 <= k < corners@.len() ==> {
                        let at = #[trigger] corners@[k];
                        at.0 + WINDOW_SIZE <= width && at.1 + WINDOW_SIZE <= height
                    },
                windows@.len() == i,
                forall|k: int|
                    0 <= k < i ==> {
                        let window = #[trigger] windows@[k];
                        &&& (window.x, window.y) == corners@[k]
                        &&& window.width == WINDOW_SIZE
                        &&& window.height == WINDOW_SIZE
                        &&& MIN_LIT_MS <= window.lit_duration < MAX_LIT_MS
                        &&& 0 < window.lit_since <= BACKDATE_MS
                    },
            decreases corners.len() - i,
        {
            let at = corners[i];
            let is_lit = random_bool(&mut rng);
            let lit_for: u64 = random_in(&mut rng, 0, BACKDATE_MS as i64) as u64;
            let lit_duration: u64 = random_in(&mut rng, MIN_LIT_MS as i64, MAX_LIT_MS as i64) as u64;
            windows.push(Window::new(at.0, at.1, is_lit, BACKDATE_MS - lit_for, lit_duration));
            i += 1;
        }
        let house = House { x, width, height, windows, built: Instant::now() };
        assert(house@.laid_out(padding));
        house
    }

    /// The column of the house's left edge.
    pub fn x(&self) -> (x: u32)
        ensures
            x == self@.x,
    {
        self.x
    }

    /// The width of the house.
    pub fn width(&self) -> (width: u32)
        ensures
            width == self@.width,
    {
        self.width
    }

    /// The height of the body, without the roof.
    pub fn height(&self) -> (height: u32)
        ensures
            height == self@.height,
    {
        self.height
    }

    /// The number of windows.
    pub fn window_count(&self) -> (count: usize)
        ensures
            count == self@.windows.len(),
    {
        self.windows.len()
    }

    /// The `i`-th window as it is now.
    pub fn window(&self, i: usize) -> (window: Window)
        requires
            i < self@.windows.len(),
        ensures
            window == self@.windows[i as int],
    {
        self.windows[i]
    }

    /// What the house's clock reads: `BACKDATE_MS` and the milliseconds since
    /// the house was built, held to what a `u64` can count.
    pub fn now(&self) -> (now: u64)
        ensures
            now >= BACKDATE_MS,
    {
        let passed = millis_since(&self.built);
        if passed > u64::MAX - BACKDATE_MS {
            u64::MAX
        } else {
            passed + BACKDATE_MS
        }
    }

    /// Changes every window that is due at `now` between lit and dark, and
    /// draws at random for how long it keeps its new state.
    pub fn update_at(&mut self, now: u64)
        requires
            old(self)@.wf(),
        ensures
            final(self)@.wf(),
            old(self)@.ticked_to(final(self)@, now),
    {
        let mut rng = rand::thread_rng();
        let mut i: usize = 0;
        while i < self.windows.len()
            invariant
                i <= self.windows.len(),
                self.x == old(self).x,
                self.width == old(self).width,
                self.height == old(self).height,
                self.windows@.len() == old(self).windows@.len(),
                self@.wf(),
                forall|k: int|
                    0 <= k < i ==> (#[trigger] old(self).windows@[k]).ticked_to(
                        self.windows@[k],
                        now,
                    ),
                forall|k: int|
                    i <= k < self.windows@.len() ==> self.windows@[k] == old(self).windows@[k],
            decreases self.windows.len() - i,
        {
            let ghost before = self@;
            let mut window = self.windows[i];
            if window.is_due(now) {
                let lit_duration: u64 = random_in(&mut rng, MIN_LIT_MS as i64, MAX_LIT_MS as i64) as u64;
                window.tick(now, lit_duration);
                self.windows[i] = window;
                assert forall|k: int| 0 <= k < self@.windows.len() implies {
                    let w = #[trigger] self@.windows[k];
                    &&& w.width == WINDOW_SIZE
                    &&& w.height == WINDOW_SIZE
                    &&& w.x + w.width <= self@.width
                    &&& w.y + w.height <= self@.height
                    &&& MIN_LIT_MS <= w.lit_duration < MAX_LIT_MS
                } by {
                    assert(k != i ==> self@.windows[k] == before.windows[k]);
                    assert(before.windows[k].width == WINDOW_SIZE);
                }
            }
            i += 1;
        }
    }

    /// Changes every window that is due, by the house's clock, between lit
    /// and dark.
    pub fn update(&mut self)
        requires
            old(self)@.wf(),
        ensures
            final(self)@.wf(),
            old(self)@.ticked(final(self)@),
    {
        let now = self.now();
        self.update_at(now);
    }

    /// Draws the house into the frame as it looks at `now`.
    pub fn draw_at(&self, frame: &mut [u8], screen_height: u32, screen_width: u32, now: u64)
        ensures
            final(frame)@ == self@.drawn(old(frame)@, screen_height, screen_width, now),
    {
        let left: u64 = self.x as u64;
        let right: u64 = left + self.width as u64;
        fill_rect(
            frame,
            left,
            right,
            1,
            self.height as u64,
            screen_height,
            screen_width,
            (0x00, 0x00, 0x00, 0xff),
        );
        let rows: u32 = self.width / 2;
        let mut y: u32 = 0;
        proof {
            assert(self@.roof_rows(0, screen_height, screen_width) =~= Set::empty());
            lemma_painted_union(
                old(frame)@,
                self@.body(screen_height, screen_width),
                Set::empty(),
                house_color(),
            );
            assert(self@.body(screen_height, screen_width).union(Set::empty())
                =~= self@.body(screen_height, screen_width));
        }
        while y < rows
            invariant
                y <= rows,
                rows == self.width / 2,
                left == self.x,
                right == self.x + self.width,
                frame@ == painted(
                    old(frame)@,
                    self@.body(screen_height, screen_width).union(
                        self@.roof_rows(y as int, screen_height, screen_width),
                    ),
                    house_color(),
                ),
            decreases rows - y,
        {
            fill_row(
                frame,
                left + y as u64,
                right - y as u64,
                self.height as u64 + y as u64,
                screen_height,
                screen_width,
                (0x00, 0x00, 0x00, 0xff),
            );
            proof {
                let body = self@.body(screen_height, screen_width);
                let done = self@.roof_rows(y as int, screen_height, screen_width);
                let this = row(
                    left + y,
                    right - y,
                    self.height + y,
                    screen_height as int,
                    screen_width as int,
                );
                lemma_painted_union(old(frame)@, body.union(done), this, house_color());
                assert forall|q: int| this.contains(q) <==> in_roof_row(
                    q,
                    self@,
                    y as int,
                    screen_height as int,
                    screen_width as int,
                ) by {}
                assert(body.union(done).union(this) =~= body.union(
                    self@.roof_rows(y + 1, screen_height, screen_width),
                ));
            }
            y += 1;
        }
        let mut i: usize = 0;
        while i < self.windows.len()
            invariant
                i <= self.windows.len(),
                frame@ == self@.windows_drawn(
                    painted(
                        old(frame)@,
                        self@.body(screen_height, screen_width).union(
                            self@.roof(screen_height, screen_width),
                        ),
                        house_color(),
                    ),
                    i as int,
                    screen_height,
                    screen_width,
                    now,
                ),
            decreases self.windows.len() - i,
        {
            self.windows[i].draw(frame, screen_height, screen_width, self.x, now);
            i += 1;
        }
    }

    /// Draws the house into the frame as it looks now, by its own clock:
    /// first the body, then the roof, then each window.
    pub fn draw(&self, frame: &mut [u8], screen_height: u32, screen_width: u32)
        ensures
            exists|now: u64|
                now >= BACKDATE_MS && final(frame)@ == self@.drawn(
                    old(frame)@,
                    screen_height,
                    screen_width,
                    now,
                ),
    {
        let now = self.now();
        self.draw_at(frame, screen_height, screen_width, now);
    }
}

} // verus!
