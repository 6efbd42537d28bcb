//! A snowflake: where it is and how it moves.

use vstd::prelude::*;

verus! {

/// A falling particle. Its position may lie beyond the screen's left and
/// right edges; rows are counted from the top down.
#[derive(Clone, Copy, Debug, PartialEq, Eq)]
pub struct SnowFlake {
    pub x: i16,
    pub y: i16,
    pub velocity_x: i16,
    pub velocity_y: i16,
}

impl SnowFlake {
    /// Whether this is a flake as it enters a screen `width` pixels wide: in
    /// the second row, at some column of the screen, not yet drifting, and
    /// falling one or two rows a tick.
    pub open spec fn is_fresh(self, width: int) -> bool {
        &&& 0 <= self.x < width
        &&& self.y == 1
        &&& self.velocity_x == 0
        &&& 1 <= self.velocity_y <= 2
    }

    /// The flake one tick later, having drifted by `drift` columns.
    pub open spec fn advanced(self, drift: i16) -> SnowFlake
        recommends
            self.can_advance(drift),
    {
        SnowFlake {
            x: (self.x + drift) as i16,
            y: (self.y + self.velocity_y) as i16,
            velocity_x: drift,
            velocity_y: self.velocity_y,
        }
    }

    /// Whether a tick with the given drift keeps the flake's position within
    /// 16 bits.
    pub open spec fn can_advance(self, drift: i16) -> bool {
        &&& i16::MIN <= self.x + drift <= i16::MAX
        &&& i16::MIN <= self.y + self.velocity_y <= i16::MAX
    }

    /// Whether `after` is this flake one tick later: drifted by at most one
    /// column to either side, and fallen by its own speed.
    pub open spec fn moved_to(self, after: SnowFlake) -> bool {
        &&& -1 <= after.velocity_x <= 1
        &&& after == self.advanced(after.velocity_x)
    }

    /// A flake entering the screen at column `x`, falling `velocity_y` rows
    /// a tick.
    pub fn new(x: i16, velocity_y: i16) -> (flake: SnowFlake)
        ensures
            flake == (SnowFlake { x, y: 1, velocity_x: 0, velocity_y }),
    {
        SnowFlake { x, y: 1, velocity_x: 0, velocity_y }
    }

    /// Moves the flake by one tick: `drift` becomes its horizontal speed, and
    /// both speeds are added to its position.
    pub fn advance(&mut self, drift: i16)
        requires
            -1 <= drift <= 1,
            old(self).can_advance(drift),
        ensures
            *final(self) == old(self).advanced(drift),
    {
        self.velocity_x = drift;
        self.x = self.x + self.velocity_x;
        self.y = self.y + self.velocity_y;
    }
}

} // verus!
