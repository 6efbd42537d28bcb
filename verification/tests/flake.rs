use rusty_night::flake::SnowFlake;

#[test]
fn a_new_flake_is_in_the_second_row_and_does_not_drift() {
    let flake = SnowFlake::new(17, 2);
    assert_eq!(flake, SnowFlake { x: 17, y: 1, velocity_x: 0, velocity_y: 2 });
}

#[test]
fn advance_adds_both_speeds() {
    let mut flake = SnowFlake::new(17, 2);
    flake.advance(-1);
    assert_eq!(flake, SnowFlake { x: 16, y: 3, velocity_x: -1, velocity_y: 2 });
    flake.advance(1);
    assert_eq!(flake, SnowFlake { x: 17, y: 5, velocity_x: 1, velocity_y: 2 });
    flake.advance(0);
    assert_eq!(flake, SnowFlake { x: 17, y: 7, velocity_x: 0, velocity_y: 2 });
}

#[test]
fn a_flake_may_leave_the_screen_to_the_left() {
    let mut flake = SnowFlake::new(0, 1);
    flake.advance(-1);
    flake.advance(-1);
    assert_eq!(flake, SnowFlake { x: -2, y: 3, velocity_x: -1, velocity_y: 1 });
}
