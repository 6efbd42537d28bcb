//! The pace of the scene: whether it runs, when the next tick is due, and
//! how the snow grows heavier the longer the scene has been running.
//!
//! Whoever shows the scene owns the clock and the input. It hands in the
//! clock's reading, in nanoseconds from any fixed moment, and acts on what
//! comes back.

use vstd::prelude::*;
use crate::world::{
    lemma_update_keeps_cap, limits_of, with_limits, SnowLimits, World, WorldView,
};

verus! {

/// The time between two ticks, for sixty ticks a second.
pub const FRAME_NANOS: u64 = 16_666_667;

pub const NANOS_PER_SEC: u64 = 1_000_000_000;

pub const NANOS_PER_MILLI: u64 = 1_000_000;

/// The time between two raises of the limits while no flake may be added
/// yet, in milliseconds; with `n` flakes a tick allowed it is the `n`-th
/// part of this.
pub const RAISE_WINDOW_MS: u64 = 2_000;

/// The seconds of running during which the limit on all flakes grows by
/// steps; from then on it doubles.
pub const GENTLE_SECS: u64 = 3;

/// The number of flakes beyond which the limit on all flakes is never
/// raised.
pub const MAX_FLAKES: usize = 10_000;

/// The columns of the screen for each flake that a tick may add at most.
pub const COLUMNS_PER_FLAKE: u32 = 20;

/// The time from `earlier` to `now`; none, should `now` be the earlier.
pub open spec fn since(now: u64, earlier: u64) -> int {
    if now >= earlier {
        now - earlier
    } else {
        0
    }
}

/// The value that `max_spawned_flakes` is never raised beyond, for a screen
/// `width` pixels wide.
pub open spec fn spawn_ceiling(width: u32) -> u32 {
    width / COLUMNS_PER_FLAKE
}

/// The time between two raises of the limits, in nanoseconds, while
/// `max_spawned_flakes` has the given value.
pub open spec fn raise_interval(max_spawned_flakes: u32) -> int {
    if max_spawned_flakes == 0 {
        RAISE_WINDOW_MS * NANOS_PER_MILLI
    } else {
        (RAISE_WINDOW_MS as int / max_spawned_flakes as int) * NANOS_PER_MILLI
    }
}

/// The limits after a raise, `secs` whole seconds into a run, with the given
/// ceiling. A tick may then add below as many flakes as the run has seconds,
/// up to the ceiling. The limit on all flakes grows by the number of seconds
/// during the first `GENTLE_SECS` and doubles after them, but is not taken
/// beyond `MAX_FLAKES`.
pub open spec fn raised(limits: SnowLimits, secs: u64, ceiling: u32) -> SnowLimits {
    SnowLimits {
        max_spawned_flakes: if secs < ceiling {
            secs as u32
        } else {
            ceiling
        },
        max_flakes_total: if limits.max_flakes_total >= MAX_FLAKES {
            limits.max_flakes_total
        } else if secs < GENTLE_SECS {
            if limits.max_flakes_total + secs <= MAX_FLAKES {
                (limits.max_flakes_total + secs) as usize
            } else {
                MAX_FLAKES
            }
        } else if 2 * limits.max_flakes_total <= MAX_FLAKES {
            (2 * limits.max_flakes_total) as usize
        } else {
            MAX_FLAKES
        },
    }
}

/// The pace of a scene. All times are readings of the clock of whoever
/// shows the scene.
#[derive(Clone, Copy, Debug, PartialEq, Eq)]
pub struct Pacer {
    pub running: bool,
    /// When the last tick was due.
    pub last_frame: u64,
    /// When the scene was last set running or halted.
    pub toggled: u64,
    /// When the limits were last raised.
    pub last_raise: u64,
}

impl Pacer {
    /// Whether a tick is due at `now`: the scene runs, and a frame's time
    /// has passed since the last tick was due.
    pub open spec fn frame_due_at(self, now: u64) -> bool {
        self.running && since(now, self.last_frame) >= FRAME_NANOS
    }

    /// Whether the limits are to be raised at `now`: the scene runs, the
    /// time between two raises has passed, and the ceiling is not reached.
    pub open spec fn raise_due_at(self, now: u64, limits: SnowLimits, ceiling: u32) -> bool {
        &&& self.running
        &&& since(now, self.last_raise) >= raise_interval(limits.max_spawned_flakes)
        &&& limits.max_spawned_flakes < ceiling
    }

    /// The whole seconds of the present run at `now`.
    pub open spec fn run_secs(self, now: u64) -> u64 {
        (since(now, self.toggled) / (NANOS_PER_SEC as int)) as u64
    }

    /// The pace after it was asked at `now` whether a tick is due.
    pub open spec fn after_frame(self, now: u64) -> Pacer {
        if self.frame_due_at(now) {
            Pacer { last_frame: now, ..self }
        } else {
            self
        }
    }

    /// The pace after it was asked at `now` for the limits of a scene that
    /// has `limits`.
    pub open spec fn after_raise(self, now: u64, limits: SnowLimits, ceiling: u32) -> Pacer {
        if self.raise_due_at(now, limits, ceiling) {
            Pacer { last_raise: now, ..self }
        } else {
            self
        }
    }

    /// The limits at `now` of a scene that has `limits`: raised if a raise is
    /// due, and as they are if not.
    pub open spec fn limits_at(self, now: u64, limits: SnowLimits, ceiling: u32) -> SnowLimits {
        if self.raise_due_at(now, limits, ceiling) {
            raised(limits, self.run_secs(now), ceiling)
        } else {
            limits
        }
    }

    /// Whether `after` is the scene `before` brought to `now` by this pace,
    /// by way of `ticked`: `ticked` is `before` after a tick if one was due,
    /// and `before` itself if not; and `after` is `ticked` with the limits
    /// that the scene is to have at `now`.
    pub open spec fn advances_by(
        self,
        before: WorldView,
        ticked: WorldView,
        after: WorldView,
        now: u64,
    ) -> bool {
        &&& if self.frame_due_at(now) {
            before.updated_to(ticked)
        } else {
            ticked == before
        }
        &&& after == with_limits(
            ticked,
            self.after_frame(now).limits_at(now, limits_of(ticked), spawn_ceiling(ticked.width)),
        )
    }

    /// Whether `after` is the scene `before` brought to `now` by this pace:
    /// ticked if a tick was due, and then with the limits that it is to have
    /// at `now`.
    pub open spec fn advances(self, before: WorldView, after: WorldView, now: u64) -> bool {
        exists|ticked: WorldView| #[trigger] self.advances_by(before, ticked, after, now)
    }

    /// A halted pace, with all its times at `now`.
    pub fn new(now: u64) -> (pacer: Pacer)
        ensures
            pacer == (Pacer { running: false, last_frame: now, toggled: now, last_raise: now }),
    {
        Pacer { running: false, last_frame: now, toggled: now, last_raise: now }
    }

    /// Sets a halted scene running and halts a running one; a run counts its
    /// seconds from `now`.
    pub fn toggle(&mut self, now: u64)
        ensures
            *final(self) == (Pacer { running: !old(self).running, toggled: now, ..*old(self) }),
    {
        self.running = !self.running;
        self.toggled = now;
    }

    /// Says whether a tick is due at `now`, and if so notes `now` as the
    /// time of the last tick.
    pub fn frame_due(&mut self, now: u64) -> (due: bool)
        ensures
            due == old(self).frame_due_at(now),
            *final(self) == old(self).after_frame(now),
    {
        if self.running && elapsed(now, self.last_frame) >= FRAME_NANOS {
            self.last_frame = now;
            true
        } else {
            false
        }
    }

    /// Gives the limits on the snow for a scene `screen_width` pixels wide
    /// that has `limits` at `now`: raised if a raise is due, and noted as
    /// raised at `now`; as they are if not.
    pub fn raise(&mut self, now: u64, limits: SnowLimits, screen_width: u32) -> (next: SnowLimits)
        ensures
            next == old(self).limits_at(now, limits, spawn_ceiling(screen_width)),
            *final(self) == old(self).after_raise(now, limits, spawn_ceiling(screen_width)),
    {
        let ceiling: u32 = screen_width / COLUMNS_PER_FLAKE;
        let interval: u64 = if limits.max_spawned_flakes == 0 {
            RAISE_WINDOW_MS * NANOS_PER_MILLI
        } else {
            (RAISE_WINDOW_MS / limits.max_spawned_flakes as u64) * NANOS_PER_MILLI
        };
        if !self.running || elapsed(now, self.last_raise) < interval
            || limits.max_spawned_flakes >= ceiling {
            return limits;
        }
        let secs: u64 = elapsed(now, self.toggled) / NANOS_PER_SEC;
        self.last_raise = now;
        let max_spawned_flakes: u32 = if secs < ceiling as u64 {
            secs as u32
        } else {
            ceiling
        };
        let total = limits.max_flakes_total;
        let max_flakes_total: usize = if total >= MAX_FLAKES {
            total
        } else if secs < GENTLE_SECS {
            if total + secs as usize <= MAX_FLAKES {
                total + secs as usize
            } else {
                MAX_FLAKES
            }
        } else if total <= MAX_FLAKES / 2 {
            2 * total
        } else {
            MAX_FLAKES
        };
        SnowLimits { max_spawned_flakes, max_flakes_total }
    }

    /// Brings a scene to `now`: ticks it if a tick is due, and then gives it
    /// the limits that it is to have at `now`. Says whether the scene was
    /// ticked, and so is to be drawn anew.
    pub fn advance(&mut self, world: &mut World, now: u64) -> (ticked: bool)
        requires
            old(world)@.wf(),
        ensures
            ticked == old(self).frame_due_at(now),
            *final(self) == old(self).after_frame(now).after_raise(
                now,
                limits_of(old(world)@),
                spawn_ceiling(old(world)@.width),
            ),
            final(world)@.wf(),
            old(self).advances(old(world)@, final(world)@, now),
            old(world)@.flakes.len() <= old(world)@.max_flakes_total ==> final(world)@.flakes.len()
                <= final(world)@.max_flakes_total,
    {
        let ticked = self.frame_due(now);
        if ticked {
            world.update();
        }
        let ghost between = world@;
        let limits = self.raise(now, world.limits(), world.width());
        world.set_limits(limits);
        proof {
            lemma_raised_capped(
                limits_of(between),
                old(self).after_frame(now).run_secs(now),
                spawn_ceiling(between.width),
            );
            assert(limits_of(between) == limits_of(old(world)@));
            assert(old(self).advances_by(old(world)@, between, world@, now));
        }
        ticked
    }
}


/// The time from `earlier` to `now`; none, should `now` be the earlier.
pub fn elapsed(now: u64, earlier: u64) -> (passed: u64)
    ensures
        passed == since(now, earlier),
{
    if now >= earlier {
        now - earlier
    } else {
        0
    }
}

/// A scene that is brought forward by a pace never holds more snow than its
/// limit allows, so long as it did not before.
pub proof fn lemma_advance_keeps_cap(pacer: Pacer, before: WorldView, after: WorldView, now: u64)
    requires
        pacer.advances(before, after, now),
        before.flakes.len() <= before.max_flakes_total,
    ensures
        after.flakes.len() <= after.max_flakes_total,
{
    let ticked = choose|ticked: WorldView| #[trigger] pacer.advances_by(before, ticked, after, now);
    if pacer.frame_due_at(now) {
        lemma_update_keeps_cap(before, ticked);
    }
    lemma_raised_capped(
        limits_of(ticked),
        pacer.after_frame(now).run_secs(now),
        spawn_ceiling(ticked.width),
    );
}

/// A raise keeps both limits within their caps, and never lowers the limit
/// on all flakes.
pub proof fn lemma_raised_capped(limits: SnowLimits, secs: u64, ceiling: u32)
    ensures
        raised(limits, secs, ceiling).max_spawned_flakes <= ceiling,
        raised(limits, secs, ceiling).max_flakes_total >= limits.max_flakes_total,
        limits.max_flakes_total <= MAX_FLAKES ==> raised(limits, secs, ceiling).max_flakes_total
            <= MAX_FLAKES,
{
}

} // verus!
