//! A window of a house: a small square that is lit for a while and dark for
//! a while, and that glows in a slow pulse while it is lit.
//!
//! Time is counted in milliseconds on the clock of the house that owns the
//! window.

use vstd::prelude::*;
use crate::canvas::{fill_rect, painted, rect};
use crate::color::{lerp_rgba, lerp_rgba_u8, Rgba};

verus! {

/// The side of a window, in pixels.
pub const WINDOW_SIZE: u32 = 5;

/// The length of one pulse of a lit window's glow, in milliseconds.
pub const GLOW_PERIOD_MS: u64 = 200;

/// The shortest time a window keeps its state, in milliseconds.
pub const MIN_LIT_MS: u64 = 5_000;

/// The time that a window's state never reaches, in milliseconds.
pub const MAX_LIT_MS: u64 = 20_000;

/// The colour of a lit window at the start of a pulse.
pub open spec fn glow_low() -> Rgba {
    (0xf5u8, 0xceu8, 0x42u8, 0xffu8)
}

/// The colour that a lit window nears at the end of a pulse.
pub open spec fn glow_high() -> Rgba {
    (0xf5u8, 0xb0u8, 0x42u8, 0xffu8)
}

/// A window. Its position is that of its lower left corner within its
/// house, counted from the house's left edge and from the ground.
#[derive(Clone, Copy, Debug, PartialEq, Eq)]
pub struct Window {
    pub x: u32,
    pub y: u32,
    pub width: u32,
    pub height: u32,
    pub is_lit: bool,
    /// When the window last changed between lit and dark.
    pub lit_since: u64,
    /// How long the window keeps its present state.
    pub lit_duration: u64,
}

impl Window {
    /// The time for which the window has been in its present state at `now`;
    /// none, should the clock read less than when the state began.
    pub open spec fn elapsed_at(self, now: u64) -> int {
        if now >= self.lit_since {
            now - self.lit_since
        } else {
            0
        }
    }

    /// Whether the window has outlasted its present state at `now`.
    pub open spec fn due_at(self, now: u64) -> bool {
        self.elapsed_at(now) > self.lit_duration
    }

    /// The window after changing between lit and dark at `now`, to keep the
    /// new state for `duration`.
    pub open spec fn flipped(self, now: u64, duration: u64) -> Window {
        Window { is_lit: !self.is_lit, lit_since: now, lit_duration: duration, ..self }
    }

    /// The window after a tick at `now`: changed if it was due, with
    /// `duration` for its new state, and as it was if not.
    pub open spec fn after_tick(self, now: u64, duration: u64) -> Window {
        if self.due_at(now) {
            self.flipped(now, duration)
        } else {
            self
        }
    }

    /// Whether `after` is this window after a tick at `now`, with any
    /// admissible duration for a new state.
    pub open spec fn ticked_to(self, after: Window, now: u64) -> bool {
        &&& after == self.after_tick(now, after.lit_duration)
        &&& self.due_at(now) ==> MIN_LIT_MS <= after.lit_duration < MAX_LIT_MS
    }

    /// The colour in which the window glows at `now`: the blend of the two
    /// glow colours at the point of the pulse that the window has reached.
    pub open spec fn glow_at(self, now: u64) -> Rgba {
        lerp_rgba(
            glow_low(),
            glow_high(),
            (self.elapsed_at(now) % (GLOW_PERIOD_MS as int)) as u8,
            GLOW_PERIOD_MS as u8,
        )
    }

    /// The pixels of the window, for a house whose left edge is at `house_x`,
    /// on a screen `sh` pixels high and `sw` wide.
    pub open spec fn pixels(self, sh: u32, sw: u32, house_x: u32) -> Set<int> {
        rect(
            house_x + self.x,
            house_x + self.x + self.width,
            self.y as int,
            self.y + self.height,
            sh as int,
            sw as int,
        )
    }

    /// The frame after the window was drawn into it at `now`: a dark window
    /// leaves it as it was, a lit one paints its pixels in its glow.
    pub open spec fn drawn(self, frame: Seq<u8>, sh: u32, sw: u32, house_x: u32, now: u64) -> Seq<
        u8,
    > {
        if self.is_lit {
            painted(frame, self.pixels(sh, sw, house_x), self.glow_at(now))
        } else {
            frame
        }
    }

    /// A window of the fixed size with its lower left corner at `(x, y)`.
    pub fn new(x: u32, y: u32, is_lit: bool, lit_since: u64, lit_duration: u64) -> (window: Window)
        ensures
            window == (Window {
                x,
                y,
                width: WINDOW_SIZE,
                height: WINDOW_SIZE,
                is_lit,
                lit_since,
                lit_duration,
            }),
    {
        Window {
            x,
            y,
            width: WINDOW_SIZE,
            height: WINDOW_SIZE,
            is_lit,
            lit_since,
            lit_duration,
        }
    }

    /// The time for which the window has been in its present state.
    pub fn elapsed(&self, now: u64) -> (millis: u64)
        ensures
            millis == self.elapsed_at(now),
    {
        if now >= self.lit_since {
            now - self.lit_since
        } else {
            0
        }
    }

    /// Whether the window has outlasted its present state.
    pub fn is_due(&self, now: u64) -> (due: bool)
        ensures
            due == self.due_at(now),
    {
        self.elapsed(now) > self.lit_duration
    }

    /// Changes the window between lit and dark if it is due at `now`; the new
    /// state then begins at `now` and lasts for `duration`.
    pub fn tick(&mut self, now: u64, duration: u64)
        ensures
            *final(self) == old(self).after_tick(now, duration),
    {
        if self.is_due(now) {
            self.is_lit = !self.is_lit;
            self.lit_since = now;
            self.lit_duration = duration;
        }
    }

    /// The colour in which the window glows at `now`.
    pub fn glow(&self, now: u64) -> (color: Rgba)
        ensures
            color == self.glow_at(now),
    {
        let phase: u64 = self.elapsed(now) % GLOW_PERIOD_MS;
        lerp_rgba_u8(
            (0xf5, 0xce, 0x42, 0xff),
            (0xf5, 0xb0, 0x42, 0xff),
            phase as u8,
            GLOW_PERIOD_MS as u8,
        )
    }

    /// Draws the window into the frame: nothing if it is dark, its square in
    /// its glow at `now` if it is lit.
    pub fn draw(
        &self,
        frame: &mut [u8],
        screen_height: u32,
        screen_width: u32,
        house_x: u32,
        now: u64,
    )
        ensures
            final(frame)@ == self.drawn(old(frame)@, screen_height, screen_width, house_x, now),
    {
        if !self.is_lit {
            return ;
        }
        let left: u64 = house_x as u64 + self.x as u64;
        fill_rect(
            frame,
            left,
            left + self.width as u64,
            self.y as u64,
            self.y as u64 + self.height as u64,
            screen_height,
            screen_width,
            self.glow(now),
        );
    }
}

/// Once a window has changed, it keeps its state for the whole of the time
/// drawn for it: a tick within `first_duration` of the change leaves it as
/// the change left it.
pub proof fn lemma_state_lasts(
    window: Window,
    first: u64,
    first_duration: u64,
    second: u64,
    second_duration: u64,
)
    requires
        window.due_at(first),
        first <= second,
        second - first <= first_duration,
    ensures
        window.after_tick(first, first_duration).after_tick(second, second_duration)
            == window.after_tick(first, first_duration),
{
}

/// A window changes at most once in any span that is no longer than the
/// shortest time a state lasts: of two ticks that close together, with
/// admissible durations, at most one changes the window.
pub proof fn lemma_one_change_per_duration(
    window: Window,
    first: u64,
    first_duration: u64,
    second: u64,
    second_duration: u64,
)
    requires
        first <= second,
        second - first <= MIN_LIT_MS,
        MIN_LIT_MS <= first_duration,
    ensures
        ({
            let between = window.after_tick(first, first_duration);
            let after = between.after_tick(second, second_duration);
            between == window || after == between
        }),
{
}

/// A tick moves no window and changes no window's size.
pub proof fn lemma_tick_keeps_shape(window: Window, now: u64, duration: u64)
    ensures
        ({
            let after = window.after_tick(now, duration);
            after.x == window.x && after.y == window.y && after.width == window.width
                && after.height == window.height
        }),
{
}

} // verus!
