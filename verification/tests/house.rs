use rusty_night::house::{window_slots, House, BACKDATE_MS};
use rusty_night::window::{MAX_LIT_MS, MIN_LIT_MS};

fn pixel(frame: &[u8], q: usize) -> [u8; 4] {
    [frame[4 * q], frame[4 * q + 1], frame[4 * q + 2], frame[4 * q + 3]]
}

fn padding_of(house: &House) -> u32 {
    let found: Vec<u32> = (3..5u32)
        .filter(|p| {
            let slots = window_slots(house.width(), house.height(), *p);
            slots.len() == house.window_count()
                && (0..slots.len()).all(|i| {
                    let w = house.window(i);
                    (w.x, w.y) == slots[i]
                })
        })
        .collect();
    assert!(!found.is_empty());
    found[0]
}

#[test]
fn window_slots_of_a_small_house() {
    // cell 8: two windows across, one up; margins 20 / 2 / 2 - 1 and 10 / 1 / 2 - 1
    assert_eq!(window_slots(20, 10, 3), vec![(4, 4), (12, 4)]);
}

#[test]
fn window_slots_go_up_each_column_in_turn() {
    // cell 9: four windows across (39 / 9), three up (29 / 9);
    // margins 39 / 4 / 2 - 2 = 2 and 29 / 3 / 2 - 2 = 2
    let slots = window_slots(39, 29, 4);
    assert_eq!(
        slots,
        vec![
            (2, 2), (2, 11), (2, 20),
            (11, 2), (11, 11), (11, 20),
            (20, 2), (20, 11), (20, 20),
            (29, 2), (29, 11), (29, 20),
        ]
    );
}

#[test]
fn window_slots_of_the_smallest_house() {
    assert_eq!(window_slots(9, 9, 4), vec![(2, 2)]);
    assert_eq!(window_slots(9, 9, 3), vec![(3, 3)]);
    assert_eq!(window_slots(8, 8, 3), vec![(3, 3)]);
}

#[test]
fn every_window_slot_lies_within_the_house() {
    for padding in 3..5u32 {
        for width in 9..120u32 {
            for height in [9u32, 10, 17, 29, 64] {
                let slots = window_slots(width, height, padding);
                assert_eq!(
                    slots.len() as u32,
                    (width / (5 + padding)) * (height / (5 + padding))
                );
                for (x, y) in slots {
                    assert!(x + 5 <= width && y + 5 <= height);
                }
            }
        }
    }
}

#[test]
fn every_window_of_a_new_house_lies_within_it() {
    for width in 10..40u32 {
        for height in 10..30u32 {
            let house = House::new(7, width, height);
            assert_eq!((house.x(), house.width(), house.height()), (7, width, height));
            assert!(house.window_count() >= 1);
            for i in 0..house.window_count() {
                let w = house.window(i);
                assert_eq!((w.width, w.height), (5, 5));
                assert!(w.x + w.width <= width);
                assert!(w.y + w.height <= height);
            }
        }
    }
}

#[test]
fn the_windows_of_a_new_house_stand_on_its_grid() {
    for _ in 0..100 {
        let house = House::new(0, 39, 29);
        let padding = padding_of(&house);
        assert!(padding == 3 || padding == 4);
    }
}

#[test]
fn the_windows_of_a_new_house_have_drawn_times() {
    let mut lit = 0;
    let mut dark = 0;
    let mut durations = Vec::new();
    for _ in 0..50 {
        let house = House::new(0, 39, 29);
        for i in 0..house.window_count() {
            let w = house.window(i);
            assert!(MIN_LIT_MS <= w.lit_duration && w.lit_duration < MAX_LIT_MS);
            assert!(0 < w.lit_since && w.lit_since <= BACKDATE_MS);
            if w.is_lit {
                lit += 1;
            } else {
                dark += 1;
            }
            if !durations.contains(&w.lit_duration) {
                durations.push(w.lit_duration);
            }
        }
    }
    // hundreds of fair draws: both states occur, and the times differ
    assert!(lit > 0 && dark > 0);
    assert!(durations.len() > 10);
}

#[test]
fn the_clock_of_a_house_starts_at_the_backdate() {
    let house = House::new(0, 20, 20);
    let now = house.now();
    assert!(now >= BACKDATE_MS);
    assert!(now < BACKDATE_MS + 60_000);
    assert!(house.now() >= now);
}

#[test]
fn update_at_flips_the_windows_that_are_due() {
    let mut house = House::new(0, 39, 29);
    let before: Vec<_> = (0..house.window_count()).map(|i| house.window(i)).collect();
    let now = BACKDATE_MS + 10_000;
    house.update_at(now);
    assert_eq!(house.window_count(), before.len());
    for (i, old) in before.iter().enumerate() {
        let new = house.window(i);
        assert_eq!((new.x, new.y, new.width, new.height), (old.x, old.y, old.width, old.height));
        if now - old.lit_since > old.lit_duration {
            assert_eq!(new.is_lit, !old.is_lit);
            assert_eq!(new.lit_since, now);
            assert!(MIN_LIT_MS <= new.lit_duration && new.lit_duration < MAX_LIT_MS);
        } else {
            assert_eq!(new, *old);
        }
    }
}

#[test]
fn update_at_before_any_state_began_changes_nothing() {
    let mut house = House::new(0, 39, 29);
    let before: Vec<_> = (0..house.window_count()).map(|i| house.window(i)).collect();
    house.update_at(0);
    // no window has been in its state for more than 5000 ms at 5000
    house.update_at(MIN_LIT_MS);
    let after: Vec<_> = (0..house.window_count()).map(|i| house.window(i)).collect();
    assert_eq!(before, after);
}

#[test]
fn update_by_the_clock_keeps_the_shape() {
    let mut house = House::new(3, 30, 20);
    let before: Vec<_> = (0..house.window_count()).map(|i| house.window(i)).collect();
    house.update();
    assert_eq!((house.x(), house.width(), house.height()), (3, 30, 20));
    for (i, old) in before.iter().enumerate() {
        let new = house.window(i);
        assert_eq!((new.x, new.y, new.width, new.height), (old.x, old.y, old.width, old.height));
        assert!(new == *old || new.is_lit != old.is_lit);
    }
}

#[test]
fn two_updates_close_together_change_a_window_once_at_most() {
    for _ in 0..20 {
        let mut house = House::new(0, 39, 29);
        let start: Vec<_> = (0..house.window_count()).map(|i| house.window(i)).collect();
        house.update_at(BACKDATE_MS + 9_000);
        let between: Vec<_> = (0..house.window_count()).map(|i| house.window(i)).collect();
        house.update_at(BACKDATE_MS + 9_000 + MIN_LIT_MS);
        for i in 0..start.len() {
            let end = house.window(i);
            assert!(start[i].is_lit == between[i].is_lit || between[i].is_lit == end.is_lit);
            if start[i].is_lit != between[i].is_lit {
                assert_eq!(end, between[i]);
            }
        }
    }
}

#[test]
fn draw_at_paints_body_roof_and_lit_windows() {
    let house = House::new(2, 12, 10);
    let (sw, sh) = (20usize, 20usize);
    let mut frame = vec![0u8; sw * sh * 4];
    let now = BACKDATE_MS;
    house.draw_at(&mut frame, sh as u32, sw as u32, now);
    for q in 0..sw * sh {
        let (col, row) = ((q % sw) as i64, (q / sw) as i64);
        let up = sh as i64 - row; // the row counted from the ground
        let in_body = (2..14).contains(&col) && (1..10).contains(&up);
        // the roof has 12 / 2 rows; its row y spans the columns 2 + y .. 14 - y
        let y = up - 10;
        let in_roof = (0..6).contains(&y) && (2 + y..14 - y).contains(&col);
        let mut expected = if in_body || in_roof { [0, 0, 0, 0xff] } else { [0, 0, 0, 0] };
        for i in 0..house.window_count() {
            let w = house.window(i);
            let in_window = (2 + w.x as i64..2 + (w.x + 5) as i64).contains(&col)
                && (w.y as i64..(w.y + 5) as i64).contains(&up);
            if in_window && w.is_lit {
                let g = w.glow(now);
                expected = [g.0, g.1, g.2, g.3];
            }
        }
        assert_eq!(pixel(&frame, q), expected);
    }
}

#[test]
fn draw_by_the_clock_paints_the_same_body() {
    let house = House::new(0, 10, 10);
    let mut frame = vec![0u8; 16 * 16 * 4];
    house.draw(&mut frame, 16, 16);
    // the lower left corner of the body: column 0, one row above the ground
    assert_eq!(pixel(&frame, 15 * 16), [0, 0, 0, 0xff]);
    // the ground row itself is not part of the body
    // (it would be the screen's row 16, below the buffer)
    // the roof's top row: y = 4, columns 4 and 5, 10 + 4 rows above the ground
    assert_eq!(pixel(&frame, 2 * 16 + 4), [0, 0, 0, 0xff]);
    assert_eq!(pixel(&frame, 2 * 16 + 5), [0, 0, 0, 0xff]);
    assert_eq!(pixel(&frame, 2 * 16 + 3), [0, 0, 0, 0]);
    assert_eq!(pixel(&frame, 2 * 16 + 6), [0, 0, 0, 0]);
    assert_eq!(pixel(&frame, 16 + 4), [0, 0, 0, 0]);
}

#[test]
fn a_house_taller_than_the_screen_is_cut_off() {
    let house = House::new(0, 10, 29);
    let mut frame = vec![0u8; 10 * 4 * 4];
    house.draw_at(&mut frame, 4, 10, BACKDATE_MS);
    // rows 1 to 4 above the ground are on the screen
    for q in 0..39 {
        let p = pixel(&frame, q);
        assert!(p == [0, 0, 0, 0xff] || p[1] >= 0xb0);
    }
    assert_eq!(pixel(&frame, 39), [0, 0, 0, 0]);
}
