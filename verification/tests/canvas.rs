use rusty_night::canvas::{fill_rect, fill_row, fill_run, put_pixel};

const INK: (u8, u8, u8, u8) = (1, 2, 3, 4);

fn pixel(frame: &[u8], q: usize) -> [u8; 4] {
    [frame[4 * q], frame[4 * q + 1], frame[4 * q + 2], frame[4 * q + 3]]
}

fn inked(frame: &[u8]) -> Vec<usize> {
    (0..frame.len() / 4).filter(|q| pixel(frame, *q) == [1, 2, 3, 4]).collect()
}

#[test]
fn put_pixel_writes_four_bytes() {
    let mut frame = vec![0u8; 16];
    put_pixel(&mut frame, 1, INK);
    assert_eq!(frame, vec![0, 0, 0, 0, 1, 2, 3, 4, 0, 0, 0, 0, 0, 0, 0, 0]);
}

#[test]
fn put_pixel_leaves_out_the_last_pixel_of_the_buffer() {
    let mut frame = vec![0u8; 16];
    put_pixel(&mut frame, 3, INK);
    assert_eq!(frame, vec![0u8; 16]);
    put_pixel(&mut frame, 2, INK);
    assert_eq!(inked(&frame), vec![2]);
}

#[test]
fn put_pixel_writes_the_last_whole_pixel_before_spare_bytes() {
    let mut frame = vec![0u8; 17];
    put_pixel(&mut frame, 3, INK);
    assert_eq!(&frame[12..], &[1, 2, 3, 4, 0]);
}

#[test]
fn put_pixel_beyond_the_buffer_does_nothing() {
    let mut frame = vec![9u8; 8];
    put_pixel(&mut frame, 2, INK);
    put_pixel(&mut frame, usize::MAX, INK);
    assert_eq!(frame, vec![9u8; 8]);
    let mut empty: Vec<u8> = Vec::new();
    put_pixel(&mut empty, 0, INK);
    assert!(empty.is_empty());
}

#[test]
fn fill_run_paints_from_first_up_to_end() {
    let mut frame = vec![0u8; 40];
    fill_run(&mut frame, 2, 5, INK);
    assert_eq!(inked(&frame), vec![2, 3, 4]);
}

#[test]
fn fill_run_stops_where_the_buffer_does() {
    let mut frame = vec![0u8; 40];
    fill_run(&mut frame, 7, u128::MAX, INK);
    assert_eq!(inked(&frame), vec![7, 8]);
    let mut other = vec![0u8; 40];
    fill_run(&mut other, 9, 20, INK);
    fill_run(&mut other, 5, 5, INK);
    fill_run(&mut other, 6, 2, INK);
    assert_eq!(other, vec![0u8; 40]);
}

#[test]
fn fill_row_counts_rows_from_the_ground() {
    // A screen 4 wide and 3 high: row 1 from the ground is the screen's row 2.
    let mut frame = vec![0u8; 4 * 3 * 4];
    fill_row(&mut frame, 1, 3, 1, 3, 4, INK);
    assert_eq!(inked(&frame), vec![9, 10]);
    fill_row(&mut frame, 0, 2, 3, 3, 4, INK);
    assert_eq!(inked(&frame), vec![0, 1, 9, 10]);
}

#[test]
fn fill_row_above_the_top_of_the_screen_does_nothing() {
    let mut frame = vec![0u8; 4 * 3 * 4];
    fill_row(&mut frame, 0, 4, 4, 3, 4, INK);
    fill_row(&mut frame, 0, 4, u64::MAX, 3, 4, INK);
    assert_eq!(frame, vec![0u8; 48]);
}

#[test]
fn fill_row_on_the_ground_lies_below_the_screen() {
    let mut frame = vec![0u8; 4 * 3 * 4];
    fill_row(&mut frame, 0, 4, 0, 3, 4, INK);
    assert_eq!(frame, vec![0u8; 48]);
}

#[test]
fn fill_row_runs_on_into_the_next_row() {
    let mut frame = vec![0u8; 4 * 3 * 4];
    fill_row(&mut frame, 3, 6, 3, 3, 4, INK);
    assert_eq!(inked(&frame), vec![3, 4, 5]);
}

#[test]
fn fill_rect_paints_every_row() {
    let mut frame = vec![0u8; 4 * 3 * 4];
    fill_rect(&mut frame, 1, 3, 1, 3, 3, 4, INK);
    assert_eq!(inked(&frame), vec![5, 6, 9, 10]);
}

#[test]
fn fill_rect_leaves_out_what_the_buffer_cannot_hold() {
    let mut frame = vec![0u8; 4 * 3 * 4];
    fill_rect(&mut frame, 2, 4, 0, 9, 3, 4, INK);
    // rows 1, 2 and 3 are on the screen; the last pixel of the buffer is never written
    assert_eq!(inked(&frame), vec![2, 3, 6, 7, 10]);
    let mut other = vec![0u8; 4 * 3 * 4];
    fill_rect(&mut other, 0, 4, 2, 2, 3, 4, INK);
    fill_rect(&mut other, 0, 4, 3, 1, 3, 4, INK);
    fill_rect(&mut other, 2, 2, 1, 3, 3, 4, INK);
    assert_eq!(other, vec![0u8; 48]);
}

#[test]
fn fill_rect_takes_a_screen_far_larger_than_the_buffer() {
    let mut frame = vec![0u8; 64];
    fill_rect(&mut frame, 0, u64::MAX, 0, u64::MAX, 100_000, u32::MAX, INK);
    // the only row within the buffer is the screen's top row, the row 100000 from the ground
    assert_eq!(inked(&frame), (0..15).collect::<Vec<usize>>());
}

#[test]
fn fill_row_takes_the_largest_screen() {
    let mut frame = vec![0u8; 64];
    fill_row(&mut frame, 3, u64::MAX, u32::MAX as u64, u32::MAX, u32::MAX, INK);
    assert_eq!(inked(&frame), (3..15).collect::<Vec<usize>>());
    fill_row(&mut frame, 0, u64::MAX, u32::MAX as u64 - 1, u32::MAX, u32::MAX, INK);
    assert_eq!(inked(&frame), (3..15).collect::<Vec<usize>>());
}
