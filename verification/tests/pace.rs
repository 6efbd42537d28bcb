use rusty_night::pace::{elapsed, Pacer, FRAME_NANOS, MAX_FLAKES};
use rusty_night::world::{SnowLimits, World};

const SEC: u64 = 1_000_000_000;
const MS: u64 = 1_000_000;

fn limits(max_spawned_flakes: u32, max_flakes_total: usize) -> SnowLimits {
    SnowLimits { max_spawned_flakes, max_flakes_total }
}

#[test]
fn elapsed_is_zero_when_the_clock_reads_less() {
    assert_eq!(elapsed(10, 3), 7);
    assert_eq!(elapsed(3, 10), 0);
    assert_eq!(elapsed(u64::MAX, 0), u64::MAX);
}

#[test]
fn a_new_pacer_is_halted() {
    let p = Pacer::new(42);
    assert_eq!(p, Pacer { running: false, last_frame: 42, toggled: 42, last_raise: 42 });
}

#[test]
fn toggle_starts_and_halts() {
    let mut p = Pacer::new(42);
    p.toggle(50);
    assert_eq!(p, Pacer { running: true, last_frame: 42, toggled: 50, last_raise: 42 });
    p.toggle(60);
    assert_eq!(p, Pacer { running: false, last_frame: 42, toggled: 60, last_raise: 42 });
}

#[test]
fn no_frame_is_due_while_halted() {
    let mut p = Pacer::new(0);
    assert!(!p.frame_due(10 * SEC));
    assert_eq!(p, Pacer::new(0));
}

#[test]
fn a_frame_is_due_every_sixtieth_of_a_second() {
    assert_eq!(FRAME_NANOS, 16_666_667);
    let mut p = Pacer::new(100);
    p.toggle(100);
    assert!(!p.frame_due(100));
    assert!(!p.frame_due(100 + FRAME_NANOS - 1));
    assert_eq!(p.last_frame, 100);
    assert!(p.frame_due(100 + FRAME_NANOS));
    assert_eq!(p.last_frame, 100 + FRAME_NANOS);
    assert!(!p.frame_due(100 + FRAME_NANOS + 1));
    assert!(!p.frame_due(0));
    assert!(p.frame_due(SEC));
    assert_eq!(p.last_frame, SEC);
}

#[test]
fn no_raise_while_halted() {
    let mut p = Pacer::new(0);
    assert_eq!(p.raise(10 * SEC, limits(0, 0), 320), limits(0, 0));
    assert_eq!(p, Pacer::new(0));
}

#[test]
fn the_first_raise_comes_after_two_seconds() {
    let mut p = Pacer::new(0);
    p.toggle(0);
    assert_eq!(p.raise(2 * SEC - 1, limits(0, 0), 320), limits(0, 0));
    assert_eq!(p.last_raise, 0);
    assert_eq!(p.raise(2 * SEC, limits(0, 0), 320), limits(2, 2));
    assert_eq!(p.last_raise, 2 * SEC);
}

#[test]
fn the_limit_on_all_flakes_doubles_after_three_seconds() {
    let mut p = Pacer::new(0);
    p.toggle(0);
    let l = p.raise(2 * SEC, limits(0, 0), 320);
    assert_eq!(l, limits(2, 2));
    // with two flakes a tick allowed, the next raise is due 1000 ms later
    assert_eq!(p.raise(3 * SEC - 1, l, 320), l);
    let l = p.raise(3 * SEC, l, 320);
    assert_eq!(l, limits(3, 4));
    // with three, 2000 / 3 = 666 ms later
    assert_eq!(p.raise(3 * SEC + 666 * MS - 1, l, 320), l);
    let l = p.raise(3 * SEC + 666 * MS, l, 320);
    assert_eq!(l, limits(3, 8));
}

#[test]
fn the_limits_grow_by_steps_in_the_first_seconds() {
    let mut p = Pacer::new(0);
    p.toggle(5 * SEC);
    assert_eq!(p.raise(5 * SEC + 2 * SEC, limits(1, 7), 320), limits(2, 9));
    let mut q = Pacer::new(0);
    q.toggle(5 * SEC);
    // nothing has passed of the run: no flake may be added, and the limit stays
    assert_eq!(q.raise(5 * SEC + 999 * MS, limits(3, 7), 320), limits(0, 7));
}

#[test]
fn the_limits_stay_within_their_caps() {
    let mut p = Pacer::new(0);
    p.toggle(0);
    let mut l = limits(0, 0);
    let mut now = 0;
    for _ in 0..100_000 {
        now += 10 * MS;
        let next = p.raise(now, l, 320);
        assert!(next.max_spawned_flakes <= 16);
        assert!(next.max_flakes_total <= MAX_FLAKES);
        assert!(next.max_flakes_total >= l.max_flakes_total);
        l = next;
    }
    assert_eq!(l, limits(16, 10_000));
}

#[test]
fn a_late_raise_stops_at_the_ceiling() {
    let mut p = Pacer::new(0);
    p.toggle(0);
    assert_eq!(p.raise(1000 * SEC, limits(2, 6000), 320), limits(16, 10_000));
    assert_eq!(p.raise(2000 * SEC, limits(16, 10_000), 320), limits(16, 10_000));
    assert_eq!(p.last_raise, 1000 * SEC);
}

#[test]
fn a_limit_beyond_the_cap_is_left() {
    let mut p = Pacer::new(0);
    p.toggle(0);
    assert_eq!(p.raise(5 * SEC, limits(0, 20_000), 320), limits(5, 20_000));
    let mut q = Pacer::new(0);
    q.toggle(0);
    assert_eq!(q.raise(2 * SEC, limits(0, 9_999), 320), limits(2, 10_000));
}

#[test]
fn a_narrow_screen_gets_no_snow() {
    let mut p = Pacer::new(0);
    p.toggle(0);
    assert_eq!(p.raise(50 * SEC, limits(0, 0), 19), limits(0, 0));
    assert_eq!(p.last_raise, 0);
    assert_eq!(p.raise(50 * SEC, limits(0, 5), 20), limits(1, 10));
}

#[test]
fn advance_leaves_a_halted_scene() {
    let mut world = World::new(320, 240);
    let mut p = Pacer::new(0);
    assert!(!p.advance(&mut world, 100 * SEC));
    assert_eq!(p, Pacer::new(0));
    assert_eq!((world.tick(), world.flake_count()), (0, 0));
    assert_eq!(world.limits(), limits(0, 0));
}

#[test]
fn advance_ticks_a_running_scene_sixty_times_a_second() {
    let mut world = World::new(320, 240);
    let mut p = Pacer::new(0);
    p.toggle(0);
    assert!(!p.advance(&mut world, FRAME_NANOS - 1));
    assert_eq!(world.tick(), 0);
    assert!(p.advance(&mut world, FRAME_NANOS));
    assert_eq!(world.tick(), 1);
    assert!(!p.advance(&mut world, FRAME_NANOS + 1));
    assert_eq!(world.tick(), 1);
    assert!(p.advance(&mut world, 2 * FRAME_NANOS));
    assert_eq!(world.tick(), 2);
    assert_eq!(p.last_frame, 2 * FRAME_NANOS);
}

#[test]
fn advance_raises_the_limits_after_the_tick() {
    let mut world = World::new(320, 240);
    let mut p = Pacer::new(0);
    p.toggle(0);
    assert!(p.advance(&mut world, 2 * SEC));
    // the tick came first, with no snow allowed yet
    assert_eq!(world.flake_count(), 0);
    assert_eq!(world.limits(), limits(2, 2));
    assert_eq!(p, Pacer { running: true, last_frame: 2 * SEC, toggled: 0, last_raise: 2 * SEC });
    assert!(p.advance(&mut world, 2 * SEC + FRAME_NANOS));
    assert_eq!(world.flake_count(), 1);
    assert_eq!(world.limits(), limits(2, 2));
}

#[test]
fn a_paced_scene_snows_harder_and_stays_within_its_limit() {
    let mut world = World::new(320, 240);
    let mut p = Pacer::new(0);
    p.toggle(0);
    let mut now = 0;
    let mut most = 0;
    for _ in 0..3000 {
        now += FRAME_NANOS;
        p.advance(&mut world, now);
        assert!(world.flake_count() <= world.limits().max_flakes_total);
        assert!(world.limits().max_spawned_flakes <= 16);
        assert!(world.limits().max_flakes_total <= MAX_FLAKES);
        most = most.max(world.flake_count());
    }
    assert_eq!(world.tick(), 3000);
    assert_eq!(world.limits(), limits(16, 10_000));
    assert!(most > 100);
}
