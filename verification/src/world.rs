//! The scene: a row of houses along the ground and the snow falling in
//! front of them, advanced tick by tick and drawn layer by layer.

use rand::rngs::ThreadRng;
use vstd::prelude::*;
use crate::canvas::{channel, lemma_painted_empty, lemma_painted_union, painted, put_pixel};
use crate::chance::random_in;
use crate::color::{lerp_rgba, lerp_rgba_u8, Rgba};
use crate::flake::SnowFlake;
use crate::house::{House, HouseView, BACKDATE_MS};

verus! {

/// The least width of a house of the row.
pub const MIN_HOUSE_WIDTH: u32 = 10;

/// The width that no house of the row reaches.
pub const MAX_HOUSE_WIDTH: u32 = 40;

/// The least height of a house of the row.
pub const MIN_HOUSE_HEIGHT: u32 = 10;

/// The height that no house of the row reaches.
pub const MAX_HOUSE_HEIGHT: u32 = MAX_HOUSE_WIDTH - 10;

/// The gap between two houses that is never reached.
pub const MAX_GAP: u32 = 4;

/// The greatest width of a screen: a flake keeps its column in 16 bits.
pub const MAX_WIDTH: u32 = 32767;

/// The greatest height of a screen: a flake keeps its row in 16 bits, and
/// falls by up to two rows from the last row above the ground.
pub const MAX_HEIGHT: u32 = 32766;

/// The most that a screen's width and height may come to together: a flake
/// may drift off the screen by as many columns as it has fallen rows, less
/// one, and by one more before it is taken off the ground.
pub const MAX_EXTENT: u32 = 32769;

/// The colour of the sky at the top of the screen.
pub open spec fn sky_top() -> Rgba {
    (0u8, 0u8, 0u8, 0xffu8)
}

/// The colour that the sky nears at the bottom of the screen.
pub open spec fn sky_bottom() -> Rgba {
    (0x08u8, 0x15u8, 0x45u8, 0xffu8)
}

/// The colour of a flake.
pub open spec fn snow_color() -> Rgba {
    (0xffu8, 0xffu8, 0xffu8, 0xffu8)
}

/// The two limits on the snow of a scene.
#[derive(Clone, Copy, Debug, PartialEq, Eq)]
pub struct SnowLimits {
    /// One more than the most flakes that a tick may add.
    pub max_spawned_flakes: u32,
    /// The number of flakes at which no further flake is added.
    pub max_flakes_total: usize,
}

/// The scene as contracts see it.
pub struct WorldView {
    pub width: u32,
    pub height: u32,
    pub tick: u32,
    pub houses: Seq<HouseView>,
    pub flakes: Seq<SnowFlake>,
    pub max_spawned_flakes: u32,
    pub max_flakes_total: usize,
}

impl WorldView {
    /// Whether the screen has a size that the scene can be kept on.
    pub open spec fn fits(self) -> bool {
        &&& 1 <= self.width <= MAX_WIDTH
        &&& 1 <= self.height <= MAX_HEIGHT
        &&& self.width + self.height <= MAX_EXTENT
    }

    /// Whether the houses stand in a row from the screen's left edge to its
    /// right: the first at column 0, each within the sizes of the row and
    /// beginning on the screen, each after the one before it with a gap
    /// below `MAX_GAP`, and the last near enough to the right edge that
    /// another would begin beyond it.
    pub open spec fn houses_in_row(self) -> bool {
        &&& self.houses.len() >= 1
        &&& self.houses[0].x == 0
        &&& forall|i: int|
            0 <= i < self.houses.len() ==> {
                let house = #[trigger] self.houses[i];
                &&& house.wf()
                &&& MIN_HOUSE_WIDTH <= house.width < MAX_HOUSE_WIDTH
                &&& MIN_HOUSE_HEIGHT <= house.height < MAX_HOUSE_HEIGHT
                &&& house.x < self.width
            }
        &&& forall|i: int|
            0 <= i < self.houses.len() - 1 ==> {
                let gap = (#[trigger] self.houses[i + 1]).x - (self.houses[i].x
                    + self.houses[i].width);
                0 <= gap < MAX_GAP
            }
        &&& self.width < self.houses.last().x + self.houses.last().width + MAX_GAP
    }

    /// Whether a flake is one that the scene can hold: at or below the second
    /// row and, unless it has just entered, above the ground; no further off
    /// the screen than it has fallen; drifting by at most a column and
    /// falling by one or two rows a tick.
    pub open spec fn holds(self, flake: SnowFlake) -> bool {
        &&& 1 <= flake.y
        &&& flake.y < self.height || flake.y == 1
        &&& 1 - flake.y <= flake.x <= self.width + flake.y - 2
        &&& -1 <= flake.velocity_x <= 1
        &&& 1 <= flake.velocity_y <= 2
    }

    /// The invariant of the scene.
    pub open spec fn wf(self) -> bool {
        &&& self.fits()
        &&& self.houses_in_row()
        &&& forall|i: int| 0 <= i < self.flakes.len() ==> self.holds(#[trigger] self.flakes[i])
    }

    /// The frame with the sky in it: each whole pixel of the buffer holds the
    /// sky's colour for its row, and what is left over at the end is as it
    /// was.
    pub open spec fn background(self, frame: Seq<u8>) -> Seq<u8> {
        Seq::new(
            frame.len(),
            |k: int|
                if k / 4 < frame.len() / 4 {
                    channel(sky_at(self.width, self.height, k / 4), k % 4)
                } else {
                    frame[k]
                },
        )
    }

    /// The frame of a scene at rest: each whole pixel of the buffer holds the
    /// colour of the sky above the ground.
    pub open spec fn idle(self, frame: Seq<u8>) -> Seq<u8> {
        Seq::new(
            frame.len(),
            |k: int|
                if k / 4 < frame.len() / 4 {
                    channel(sky_bottom(), k % 4)
                } else {
                    frame[k]
                },
        )
    }

    /// The frame after the first `n` houses were drawn into it, from the
    /// left, the `i`-th as it looks when its clock reads `nows[i]`.
    pub open spec fn village(self, frame: Seq<u8>, nows: Seq<u64>, n: int) -> Seq<u8>
        decreases n,
    {
        if n <= 0 {
            frame
        } else {
            self.houses[n - 1].drawn(
                self.village(frame, nows, n - 1),
                self.height,
                self.width,
                nows[n - 1],
            )
        }
    }

    /// The frame with the whole scene in it: the sky if the scene is running
    /// and the frame of a scene at rest if not, over it the houses, and over
    /// them the snow.
    pub open spec fn scene(self, frame: Seq<u8>, running: bool, nows: Seq<u64>) -> Seq<u8> {
        painted(
            self.village(
                if running {
                    self.background(frame)
                } else {
                    self.idle(frame)
                },
                nows,
                self.houses.len() as int,
            ),
            self.snow_pixels(self.flakes.len() as int),
            snow_color(),
        )
    }

    /// Whether a flake is in a column of the screen.
    pub open spec fn shows(self, flake: SnowFlake) -> bool {
        0 <= flake.x < self.width
    }

    /// The pixel that a flake is at.
    pub open spec fn flake_pixel(self, flake: SnowFlake) -> int {
        flake.x + flake.y * self.width
    }

    /// The pixels of those of the first `n` flakes that are in a column of
    /// the screen.
    pub open spec fn snow_pixels(self, n: int) -> Set<int> {
        Set::new(
            |q: int|
                exists|i: int|
                    0 <= i < n && self.shows(#[trigger] self.flakes[i]) && q == self.flake_pixel(
                        self.flakes[i],
                    ),
        )
    }

    /// Whether `moved` holds the flakes of the scene one tick later, each in
    /// its place.
    pub open spec fn fall_to(self, moved: Seq<SnowFlake>) -> bool {
        &&& moved.len() == self.flakes.len()
        &&& forall|i: int|
            0 <= i < self.flakes.len() ==> (#[trigger] self.flakes[i]).moved_to(moved[i])
    }

    /// Whether `born` can be the flakes that a tick adds to `present` ones
    /// when `drawn` are asked for: a number asked for that is at least one
    /// and below `max_spawned_flakes`, or none where that is no more than 1;
    /// as many flakes as still fit below `max_flakes_total`; and each of them
    /// entering at the top of the screen.
    pub open spec fn spawns(self, present: nat, born: Seq<SnowFlake>, drawn: int) -> bool {
        &&& if self.max_spawned_flakes > 1 {
            1 <= drawn < self.max_spawned_flakes
        } else {
            drawn == 0
        }
        &&& born.len() == spawn_count(drawn, present as int, self.max_flakes_total as int)
        &&& forall|j: int| 0 <= j < born.len() ==> (#[trigger] born[j]).is_fresh(self.width as int)
    }

    /// Whether `after` holds the snow of this scene after a tick in which the
    /// flakes moved to `moved` and `drawn` new ones were asked for: what of
    /// `moved` is above the ground, in order, and then the new flakes `born`.
    pub open spec fn snowed_to(
        self,
        after: Seq<SnowFlake>,
        moved: Seq<SnowFlake>,
        born: Seq<SnowFlake>,
        drawn: int,
    ) -> bool {
        &&& self.fall_to(moved)
        &&& after == moved.filter(above_ground(self.height)) + born
        &&& self.spawns(moved.filter(above_ground(self.height)).len(), born, drawn)
    }

    /// Whether `nows` holds a reading of its clock for each house.
    pub open spec fn readings(self, nows: Seq<u64>) -> bool {
        &&& nows.len() == self.houses.len()
        &&& forall|i: int| 0 <= i < nows.len() ==> #[trigger] nows[i] >= BACKDATE_MS
    }

    /// Whether `after` is this scene one tick later: the same screen and the
    /// same limits, the tick counted, every house ticked by its own clock,
    /// and the snow fallen, cleared from the ground and added to.
    pub open spec fn updated_to(self, after: WorldView) -> bool {
        &&& after.width == self.width
        &&& after.height == self.height
        &&& after.max_spawned_flakes == self.max_spawned_flakes
        &&& after.max_flakes_total == self.max_flakes_total
        &&& after.tick == next_tick(self.tick)
        &&& after.houses.len() == self.houses.len()
        &&& forall|i: int|
            0 <= i < self.houses.len() ==> (#[trigger] self.houses[i]).ticked(after.houses[i])
        &&& exists|moved: Seq<SnowFlake>, born: Seq<SnowFlake>, drawn: int|
            self.snowed_to(after.flakes, moved, born, drawn)
    }
}

/// The two limits of a scene.
pub open spec fn limits_of(world: WorldView) -> SnowLimits {
    SnowLimits {
        max_spawned_flakes: world.max_spawned_flakes,
        max_flakes_total: world.max_flakes_total,
    }
}

/// The scene with the two limits set anew.
pub open spec fn with_limits(world: WorldView, limits: SnowLimits) -> WorldView {
    WorldView {
        max_spawned_flakes: limits.max_spawned_flakes,
        max_flakes_total: limits.max_flakes_total,
        ..world
    }
}

/// The test that a flake has not reached the ground of a screen `height`
/// pixels high.
pub open spec fn above_ground(height: u32) -> spec_fn(SnowFlake) -> bool {
    |flake: SnowFlake| flake.y < height
}

/// The colour of the sky at the pixel `pixel` of a screen of the given size:
/// the blend of the sky's two colours at the pixel's row out of the screen's
/// height, both counted in their low 8 bits.
pub open spec fn sky_at(width: u32, height: u32, pixel: int) -> Rgba {
    lerp_rgba(
        sky_top(),
        sky_bottom(),
        ((pixel / (width as int)) % 256) as u8,
        (height % 256) as u8,
    )
}

/// The tick counter after one more tick: it starts again at zero once 32
/// bits are used up.
pub open spec fn next_tick(tick: u32) -> u32 {
    if tick == u32::MAX {
        0
    } else {
        (tick + 1) as u32
    }
}

/// How many flakes a tick adds when `drawn` are asked for, `present` are
/// there and the scene is to hold `cap` at most: as many of those asked for
/// as still fit below the cap.
pub open spec fn spawn_count(drawn: int, present: int, cap: int) -> int {
    if cap <= present {
        0
    } else if drawn <= cap - present {
        drawn
    } else {
        cap - present
    }
}

/// No two houses of the row overlap, and they stand in order from the left:
/// a house begins where an earlier one has ended, or further right.
pub proof fn lemma_houses_apart(world: WorldView, i: int, j: int)
    requires
        world.houses_in_row(),
        0 <= i < j < world.houses.len(),
    ensures
        world.houses[i].x + world.houses[i].width <= world.houses[j].x,
    decreases j - i,
{
    if i + 1 < j {
        lemma_houses_apart(world, i, j - 1);
        assert(world.houses[j - 1 + 1].x >= world.houses[j - 1].x + world.houses[j - 1].width);
    } else {
        assert(world.houses[i + 1].x >= world.houses[i].x + world.houses[i].width);
    }
}

/// The row ends less than the greatest width of a house beyond the screen's
/// right edge, and no house of it ends further right than the last.
pub proof fn lemma_row_ends(world: WorldView, i: int)
    requires
        world.houses_in_row(),
        0 <= i < world.houses.len(),
    ensures
        world.houses[i].x + world.houses[i].width <= world.houses.last().x
            + world.houses.last().width,
        world.houses.last().x + world.houses.last().width < world.width + MAX_HOUSE_WIDTH,
{
    if i < world.houses.len() - 1 {
        lemma_houses_apart(world, i, world.houses.len() - 1);
    }
}

/// In a tick every flake falls by at least one row and at most two, and
/// drifts by at most one column.
pub proof fn lemma_flakes_fall(world: WorldView, moved: Seq<SnowFlake>, i: int)
    requires
        world.wf(),
        world.fall_to(moved),
        0 <= i < world.flakes.len(),
    ensures
        world.flakes[i].y + 1 <= moved[i].y <= world.flakes[i].y + 2,
        world.flakes[i].x - 1 <= moved[i].x <= world.flakes[i].x + 1,
{
    assert(world.holds(world.flakes[i]));
    assert(world.flakes[i].moved_to(moved[i]));
}

/// A tick never takes the snow beyond the limit on its number, so long as it
/// was not beyond it before.
pub proof fn lemma_update_keeps_cap(before: WorldView, after: WorldView)
    requires
        before.updated_to(after),
        before.flakes.len() <= before.max_flakes_total,
    ensures
        after.flakes.len() <= after.max_flakes_total,
{
    let (moved, born, drawn) = choose|moved: Seq<SnowFlake>, born: Seq<SnowFlake>, drawn: int|
        before.snowed_to(after.flakes, moved, born, drawn);
    moved.lemma_filter_len(above_ground(before.height));
}

/// After a tick no flake is on the ground or below it, on a screen high
/// enough that a flake does not enter on the ground.
pub proof fn lemma_update_clears_ground(before: WorldView, after: WorldView)
    requires
        before.updated_to(after),
        before.height >= 2,
    ensures
        forall|i: int| 0 <= i < after.flakes.len() ==> (#[trigger] after.flakes[i]).y < after.height,
{
    let (moved, born, drawn) = choose|moved: Seq<SnowFlake>, born: Seq<SnowFlake>, drawn: int|
        before.snowed_to(after.flakes, moved, born, drawn);
    let above = above_ground(before.height);
    let kept = moved.filter(above);
    assert forall|i: int| 0 <= i < after.flakes.len() implies (#[trigger] after.flakes[i]).y
        < after.height by {
        if i < kept.len() {
            moved.lemma_filter_pred(above, i);
            assert(after.flakes[i] == kept[i]);
        } else {
            assert(after.flakes[i] == born[i - kept.len()]);
            assert(born[i - kept.len()].is_fresh(before.width as int));
        }
    }
}

/// Where there is no snow, drawing the snow changes nothing.
pub proof fn lemma_no_snow_no_change(world: WorldView, frame: Seq<u8>)
    requires
        world.flakes.len() == 0,
    ensures
        painted(frame, world.snow_pixels(world.flakes.len() as int), snow_color()) == frame,
{
    assert(world.snow_pixels(0) =~= Set::empty());
    lemma_painted_empty(frame, snow_color());
}

/// Drawing one more house adds its clock's reading to those of the houses
/// before it, and changes nothing of how those were drawn.
proof fn lemma_village_extends(world: WorldView, frame: Seq<u8>, nows: Seq<u64>, now: u64, n: int)
    requires
        0 <= n == nows.len(),
    ensures
        world.village(frame, nows.push(now), n + 1) == world.houses[n].drawn(
            world.village(frame, nows, n),
            world.height,
            world.width,
            now,
        ),
{
    lemma_village_prefix(world, frame, nows, nows.push(now), n);
}

/// How the first `n` houses are drawn depends on the first `n` readings
/// alone.
proof fn lemma_village_prefix(
    world: WorldView,
    frame: Seq<u8>,
    a: Seq<u64>,
    b: Seq<u64>,
    n: int,
)
    requires
        n <= a.len(),
        n <= b.len(),
        forall|i: int| 0 <= i < n ==> a[i] == b[i],
    ensures
        world.village(frame, a, n) == world.village(frame, b, n),
    decreases n,
{
    if n > 0 {
        lemma_village_prefix(world, frame, a, b, n - 1);
    }
}

/// What passes a test out of a sequence with one more item at its end.
proof fn lemma_filter_push<A>(s: Seq<A>, pred: spec_fn(A) -> bool, item: A)
    ensures
        s.push(item).filter(pred) == if pred(item) {
            s.filter(pred).push(item)
        } else {
            s.filter(pred)
        },
{
    reveal(Seq::filter);
    assert(s.push(item).drop_last() =~= s);
}

/// The scene. How much snow falls is set from outside, between ticks,
/// through the two public fields or through `set_limits`.
pub struct World {
    flakes: Vec<SnowFlake>,
    houses: Vec<House>,
    rng: ThreadRng,
    /// One more than the most flakes that a tick may add.
    pub max_spawned_flakes: u32,
    /// The number of flakes at which no further flake is added.
    pub max_flakes_total: usize,
    tick: u32,
    width: u32,
    height: u32,
}

impl View for World {
    type V = WorldView;

    closed spec fn view(&self) -> WorldView {
        WorldView {
            width: self.width,
            height: self.height,
            tick: self.tick,
            houses: Seq::new(self.houses@.len(), |i: int| self.houses@[i]@),
            flakes: self.flakes@,
            max_spawned_flakes: self.max_spawned_flakes,
            max_flakes_total: self.max_flakes_total,
        }
    }
}

impl World {
    /// Builds the scene for a screen of the given size: a row of houses of
    /// random sizes and gaps, no snow yet, and none to come until the two
    /// limits are raised.
    pub fn new(width: u32, height: u32) -> (world: World)
        requires
            1 <= width <= MAX_WIDTH,
            1 <= height <= MAX_HEIGHT,
            width + height <= MAX_EXTENT,
        ensures
            world@.wf(),
            world@.width == width,
            world@.height == height,
            world@.tick == 0,
            world@.flakes.len() == 0,
            world@.max_spawned_flakes == 0,
            world@.max_flakes_total == 0,
    {
        let mut houses: Vec<House> = Vec::new();
        let mut rng = rand::thread_rng();
        let mut current_x: u32 = 0;
        while current_x < width
            invariant
                1 <= width <= MAX_WIDTH,
                houses@.len() == 0 ==> current_x == 0,
                current_x <= width + MAX_HOUSE_WIDTH + MAX_GAP,
                forall|i: int|
                    0 <= i < houses@.len() ==> {
                        let house = (#[trigger] houses@[i])@;
                        &&& house.wf()
                        &&& MIN_HOUSE_WIDTH <= house.width < MAX_HOUSE_WIDTH
                        &&& MIN_HOUSE_HEIGHT <= house.height < MAX_HOUSE_HEIGHT
                        &&& house.x < width
                    },
                forall|i: int|
                    0 <= i < houses@.len() - 1 ==> {
                        let gap = (#[trigger] houses@[i + 1])@.x - (houses@[i]@.x
                            + houses@[i]@.width);
                        0 <= gap < MAX_GAP
                    },
                houses@.len() >= 1 ==> houses@[0]@.x == 0,
                houses@.len() >= 1 ==> {
                    let last = houses@[houses@.len() - 1]@;
                    0 <= current_x - (last.x + last.width) < MAX_GAP
                },
            decreases width + MAX_HOUSE_WIDTH + MAX_GAP - current_x,
        {
            let house_width: u32 = random_in(
                &mut rng,
                MIN_HOUSE_WIDTH as i64,
                MAX_HOUSE_WIDTH as i64,
            ) as u32;
            let house_height: u32 = random_in(
                &mut rng,
                MIN_HOUSE_HEIGHT as i64,
                MAX_HOUSE_HEIGHT as i64,
            ) as u32;
            let gap: u32 = random_in(&mut rng, 0, MAX_GAP as i64) as u32;
            houses.push(House::new(current_x, house_width, house_height));
            current_x += house_width + gap;
        }
        let world = World {
            flakes: Vec::new(),
            houses,
            rng,
            max_spawned_flakes: 0,
            max_flakes_total: 0,
            tick: 0,
            width,
            height,
        };
        assert(world@.houses_in_row());
        world
    }

    /// Moves every flake by one tick, with a drift drawn at random, and takes
    /// out those that have reached the ground.
    fn fall(&mut self)
        requires
            old(self)@.wf(),
        ensures
            final(self)@ == (WorldView { flakes: final(self)@.flakes, ..old(self)@ }),
            final(self)@.wf(),
            exists|moved: Seq<SnowFlake>|
                old(self)@.fall_to(moved) && final(self)@.flakes == moved.filter(
                    above_ground(old(self)@.height),
                ),
            forall|i: int|
                0 <= i < final(self)@.flakes.len() ==> (#[trigger] final(self)@.flakes[i]).y
                    < old(self)@.height,
    {
        let n = self.flakes.len();
        let ground: i16 = self.height as i16;
        let mut kept: usize = 0;
        let mut i: usize = 0;
        let ghost mut moved: Seq<SnowFlake> = Seq::empty();
        let ghost above = above_ground(old(self)@.height);
        while i < n
            invariant
                kept <= i <= n,
                n == old(self).flakes@.len(),
                self.flakes@.len() == n,
                old(self)@.wf(),
                ground == self.height,
                above == above_ground(old(self)@.height),
                self@ == (WorldView { flakes: self@.flakes, ..old(self)@ }),
                moved.len() == i,
                forall|k: int| 0 <= k < i ==> (#[trigger] old(self)@.flakes[k]).moved_to(moved[k]),
                self.flakes@.take(kept as int) == moved.filter(above),
                forall|k: int|
                    0 <= k < kept ==> {
                        let flake = #[trigger] self.flakes@[k];
                        old(self)@.holds(flake) && flake.y < self.height
                    },
                forall|k: int| i <= k < n ==> self.flakes@[k] == old(self).flakes@[k],
            decreases n - i,
        {
            let mut flake = self.flakes[i];
            assert(old(self)@.holds(old(self)@.flakes[i as int]));
            let drift: i16 = random_in(&mut self.rng, -1, 2) as i16;
            flake.advance(drift);
            proof {
                lemma_filter_push(moved, above, flake);
                moved = moved.push(flake);
            }
            let ghost before = self.flakes@;
            if flake.y < ground {
                self.flakes[kept] = flake;
                assert(self.flakes@.take(kept + 1) =~= before.take(kept as int).push(flake));
                kept += 1;
            } else {
                assert(self.flakes@.take(kept as int) =~= before.take(kept as int));
            }
            i += 1;
        }
        self.flakes.truncate(kept);
        assert(self.flakes@ =~= moved.filter(above));
        assert(old(self)@.fall_to(moved));
    }

    /// Adds new flakes at the top of the screen: a number drawn at random
    /// below `max_spawned_flakes`, cut short where `max_flakes_total` is
    /// reached, and none unless `max_spawned_flakes` is above 1.
    fn spawn(&mut self)
        requires
            old(self)@.wf(),
        ensures
            final(self)@ == (WorldView { flakes: final(self)@.flakes, ..old(self)@ }),
            final(self)@.wf(),
            exists|born: Seq<SnowFlake>, drawn: int|
                final(self)@.flakes == old(self)@.flakes + born && old(self)@.spawns(
                    old(self)@.flakes.len(),
                    born,
                    drawn,
                ),
    {
        let ghost mut born: Seq<SnowFlake> = Seq::empty();
        if self.max_spawned_flakes <= 1 {
            assert(self@.flakes =~= old(self)@.flakes + born);
            assert(old(self)@.spawns(old(self)@.flakes.len(), born, 0));
            return ;
        }
        let drawn: u32 = random_in(&mut self.rng, 1, self.max_spawned_flakes as i64) as u32;
        let mut n: u32 = 0;
        assert(self@.flakes =~= old(self)@.flakes + born);
        while n < drawn
            invariant
                n <= drawn,
                old(self)@.wf(),
                self@ == (WorldView { flakes: self@.flakes, ..old(self)@ }),
                self@.wf(),
                self@.flakes == old(self)@.flakes + born,
                forall|j: int|
                    0 <= j < born.len() ==> (#[trigger] born[j]).is_fresh(old(self)@.width as int),
                born.len() == spawn_count(
                    n as int,
                    old(self)@.flakes.len() as int,
                    old(self)@.max_flakes_total as int,
                ),
            decreases drawn - n,
        {
            if self.flakes.len() < self.max_flakes_total {
                let x: i16 = random_in(&mut self.rng, 0, self.width as i64) as i16;
                let velocity_y: i16 = random_in(&mut self.rng, 1, 3) as i16;
                let flake = SnowFlake::new(x, velocity_y);
                self.flakes.push(flake);
                proof {
                    born = born.push(flake);
                    assert(self@.flakes =~= old(self)@.flakes + born);
                }
            }
            n += 1;
        }
        assert(old(self)@.spawns(old(self)@.flakes.len(), born, drawn as int));
    }

    /// Ticks every house.
    fn update_houses(&mut self)
        requires
            old(self)@.wf(),
        ensures
            final(self)@ == (WorldView { houses: final(self)@.houses, ..old(self)@ }),
            final(self)@.wf(),
            final(self)@.houses.len() == old(self)@.houses.len(),
            forall|i: int|
                0 <= i < old(self)@.houses.len() ==> (#[trigger] old(self)@.houses[i]).ticked(
                    final(self)@.houses[i],
                ),
    {
        let mut i: usize = 0;
        while i < self.houses.len()
            invariant
                i <= self.houses.len(),
                old(self)@.wf(),
                self@ == (WorldView { houses: self@.houses, ..old(self)@ }),
                self@.houses.len() == old(self)@.houses.len(),
                forall|k: int|
                    0 <= k < i ==> (#[trigger] old(self)@.houses[k]).ticked(self@.houses[k]),
                forall|k: int|
                    i <= k < self@.houses.len() ==> self@.houses[k] == old(self)@.houses[k],
                forall|k: int|
                    0 <= k < self@.houses.len() ==> {
                        let house = #[trigger] self@.houses[k];
                        &&& house.wf()
                        &&& house.x == old(self)@.houses[k].x
                        &&& house.width == old(self)@.houses[k].width
                        &&& house.height == old(self)@.houses[k].height
                    },
            decreases self.houses.len() - i,
        {
            let ghost before = self@;
            let ghost houses_before = self.houses@;
            assert(before.houses[i as int] == houses_before[i as int]@);
            self.houses[i].update();
            proof {
                assert(self.houses@.len() == houses_before.len());
                assert(forall|k: int|
                    0 <= k < houses_before.len() && k != i ==> self.houses@[k]
                        == houses_before[k]);
                assert forall|k: int| 0 <= k < self@.houses.len() && k != i implies
                    #[trigger] self@.houses[k] == before.houses[k] by {
                    assert(self@.houses[k] == self.houses@[k]@);
                    assert(before.houses[k] == houses_before[k]@);
                }
                assert(before.houses[i as int].ticked(self@.houses[i as int]));
                assert(old(self)@.houses[i as int] == before.houses[i as int]);
            }
            i += 1;
        }
    }

    /// Advances the scene by one tick: counts the tick, lets the snow fall
    /// and takes it off the ground, adds new snow, and lets the windows of
    /// every house go on or off as they are due.
    pub fn update(&mut self)
        requires
            old(self)@.wf(),
        ensures
            final(self)@.wf(),
            old(self)@.updated_to(final(self)@),
            old(self)@.flakes.len() <= old(self)@.max_flakes_total ==> final(self)@.flakes.len()
                <= final(self)@.max_flakes_total,
            old(self)@.height >= 2 ==> forall|i: int|
                0 <= i < final(self)@.flakes.len() ==> (#[trigger] final(self)@.flakes[i]).y
                    < final(self)@.height,
    {
        self.tick = self.tick.wrapping_add(1);
        self.fall();
        let ghost fallen = self@;
        self.spawn();
        let ghost snowed = self@.flakes;
        self.update_houses();
        proof {
            let above = above_ground(old(self)@.height);
            let moved = choose|moved: Seq<SnowFlake>|
                old(self)@.fall_to(moved) && fallen.flakes == moved.filter(above);
            let (born, drawn) = choose|born: Seq<SnowFlake>, drawn: int|
                snowed == fallen.flakes + born && fallen.spawns(fallen.flakes.len(), born, drawn);
            assert(old(self)@.spawns(fallen.flakes.len(), born, drawn));
            moved.lemma_filter_len(above);
            assert(old(self)@.snowed_to(self@.flakes, moved, born, drawn));
        }
    }

    /// Draws the sky over the whole frame, from its colour at the top to its
    /// colour above the ground.
    pub fn draw_background(&self, frame: &mut [u8])
        requires
            self@.wf(),
        ensures
            final(frame)@ == self@.background(old(frame)@),
    {
        let len: usize = frame.len();
        let pixels: usize = len / 4;
        let range: u8 = (self.height % 256) as u8;
        let mut i: usize = 0;
        while i < pixels
            invariant
                i <= pixels,
                pixels == len / 4,
                frame@.len() == len,
                old(frame)@.len() == len,
                self@.wf(),
                range == self.height % 256,
                forall|k: int|
                    0 <= k < frame@.len() ==> frame@[k] == if k / 4 < i {
                        channel(sky_at(self.width, self.height, k / 4), k % 4)
                    } else {
                        old(frame)@[k]
                    },
            decreases pixels - i,
        {
            let row: usize = i / self.width as usize;
            let color = lerp_rgba_u8(
                (0x00, 0x00, 0x00, 0xff),
                (0x08, 0x15, 0x45, 0xff),
                (row % 256) as u8,
                range,
            );
            let at: usize = i * 4;
            frame[at] = color.0;
            frame[at + 1] = color.1;
            frame[at + 2] = color.2;
            frame[at + 3] = color.3;
            i += 1;
        }
        assert(frame@ =~= self@.background(old(frame)@));
    }

    /// Draws the frame that stands for a scene at rest: the sky's colour
    /// above the ground, all over.
    pub fn draw_debug(&self, frame: &mut [u8])
        ensures
            final(frame)@ == self@.idle(old(frame)@),
    {
        let len: usize = frame.len();
        let pixels: usize = len / 4;
        let mut i: usize = 0;
        while i < pixels
            invariant
                i <= pixels,
                pixels == len / 4,
                frame@.len() == len,
                old(frame)@.len() == len,
                forall|k: int|
                    0 <= k < frame@.len() ==> frame@[k] == if k / 4 < i {
                        channel(sky_bottom(), k % 4)
                    } else {
                        old(frame)@[k]
                    },
            decreases pixels - i,
        {
            let at: usize = i * 4;
            frame[at] = 0x08;
            frame[at + 1] = 0x15;
            frame[at + 2] = 0x45;
            frame[at + 3] = 0xff;
            i += 1;
        }
        assert(frame@ =~= self@.idle(old(frame)@));
    }

    /// Draws the houses, from the left, each as it looks by its own clock.
    pub fn draw_village(&self, frame: &mut [u8])
        ensures
            exists|nows: Seq<u64>|
                self@.readings(nows) && final(frame)@ == self@.village(
                    old(frame)@,
                    nows,
                    self@.houses.len() as int,
                ),
    {
        let ghost mut nows: Seq<u64> = Seq::empty();
        let mut i: usize = 0;
        while i < self.houses.len()
            invariant
                i <= self.houses.len(),
                nows.len() == i,
                forall|k: int| 0 <= k < nows.len() ==> #[trigger] nows[k] >= BACKDATE_MS,
                frame@ == self@.village(old(frame)@, nows, i as int),
            decreases self.houses.len() - i,
        {
            let ghost before = frame@;
            self.houses[i].draw(frame, self.height, self.width);
            proof {
                let now = choose|now: u64|
                    now >= BACKDATE_MS && frame@ == self.houses@[i as int]@.drawn(
                        before,
                        self.height,
                        self.width,
                        now,
                    );
                lemma_village_extends(self@, old(frame)@, nows, now, i as int);
                nows = nows.push(now);
            }
            i += 1;
        }
        assert(self@.readings(nows) && frame@ == self@.village(
            old(frame)@,
            nows,
            self@.houses.len() as int,
        ));
    }

    /// Draws every flake that is in a column of the screen, as one white
    /// pixel.
    pub fn draw_flakes(&self, frame: &mut [u8])
        requires
            self@.wf(),
        ensures
            final(frame)@ == painted(
                old(frame)@,
                self@.snow_pixels(self@.flakes.len() as int),
                snow_color(),
            ),
    {
        let mut i: usize = 0;
        proof {
            assert(self@.snow_pixels(0) =~= Set::empty());
            lemma_painted_empty(frame@, snow_color());
        }
        while i < self.flakes.len()
            invariant
                i <= self.flakes.len(),
                self@.wf(),
                frame@ == painted(old(frame)@, self@.snow_pixels(i as int), snow_color()),
            decreases self.flakes.len() - i,
        {
            let flake = self.flakes[i];
            assert(self@.holds(self@.flakes[i as int]));
            let ghost done = self@.snow_pixels(i as int);
            if 0 <= flake.x && (flake.x as u32) < self.width {
                let x: usize = flake.x as usize;
                let y: usize = flake.y as usize;
                assert(y * self.width <= 32767 * 32767) by (nonlinear_arith)
                    requires
                        0 <= y <= 32767,
                        0 <= self.width <= 32767,
                ;
                let pixel: usize = x + y * self.width as usize;
                put_pixel(frame, pixel, (0xff, 0xff, 0xff, 0xff));
                proof {
                    lemma_painted_union(old(frame)@, done, set![pixel as int], snow_color());
                    assert(done.union(set![pixel as int]) =~= self@.snow_pixels(i + 1));
                }
            } else {
                assert(done =~= self@.snow_pixels(i + 1));
            }
            i += 1;
        }
    }

    /// Draws the whole scene, layer over layer: the sky of a running scene
    /// or the frame of one at rest, then the houses, then the snow.
    pub fn draw(&self, frame: &mut [u8], running: bool)
        requires
            self@.wf(),
        ensures
            exists|nows: Seq<u64>|
                self@.readings(nows) && final(frame)@ == self@.scene(old(frame)@, running, nows),
    {
        if running {
            self.draw_background(frame);
        } else {
            self.draw_debug(frame);
        }
        let ghost sky = frame@;
        self.draw_village(frame);
        let ghost nows = choose|nows: Seq<u64>|
            self@.readings(nows) && frame@ == self@.village(sky, nows, self@.houses.len() as int);
        self.draw_flakes(frame);
        assert(self@.readings(nows) && frame@ == self@.scene(old(frame)@, running, nows));
    }

    /// The two limits on the snow.
    pub fn limits(&self) -> (limits: SnowLimits)
        ensures
            limits == limits_of(self@),
    {
        SnowLimits {
            max_spawned_flakes: self.max_spawned_flakes,
            max_flakes_total: self.max_flakes_total,
        }
    }

    /// Sets the two limits on the snow, and changes nothing else. Flakes
    /// beyond a lowered limit stay until they reach the ground.
    pub fn set_limits(&mut self, limits: SnowLimits)
        ensures
            final(self)@ == with_limits(old(self)@, limits),
    {
        self.max_spawned_flakes = limits.max_spawned_flakes;
        self.max_flakes_total = limits.max_flakes_total;
    }

    /// The width of the screen.
    pub fn width(&self) -> (width: u32)
        ensures
            width == self@.width,
    {
        self.width
    }

    /// The height of the screen.
    pub fn height(&self) -> (height: u32)
        ensures
            height == self@.height,
    {
        self.height
    }

    /// How many ticks the scene has been advanced by, counted within 32 bits.
    pub fn tick(&self) -> (tick: u32)
        ensures
            tick == self@.tick,
    {
        self.tick
    }

    /// The number of flakes.
    pub fn flake_count(&self) -> (count: usize)
        ensures
            count == self@.flakes.len(),
    {
        self.flakes.len()
    }

    /// The `i`-th flake.
    pub fn flake(&self, i: usize) -> (flake: SnowFlake)
        requires
            i < self@.flakes.len(),
        ensures
            flake == self@.flakes[i as int],
    {
        self.flakes[i]
    }

    /// The number of houses.
    pub fn house_count(&self) -> (count: usize)
        ensures
            count == self@.houses.len(),
    {
        self.houses.len()
    }

    /// The `i`-th house, counted from the left.
    pub fn house(&self, i: usize) -> (house: &House)
        requires
            i < self@.houses.len(),
        ensures
            house@ == self@.houses[i as int],
    {
        &self.houses[i]
    }
}

} // verus!
