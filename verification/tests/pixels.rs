use luneweb::event::LuaRGBA;
use luneweb::pixels::{draw_line, draw_pixel, replace_frame, replace_pixel, set_pixel};

const RED: LuaRGBA = LuaRGBA { r: 255, g: 0, b: 0, a: 255 };

/// The numbers of the pixels that are red, in a frame that started black.
fn red_pixels(frame: &[u8]) -> Vec<usize> {
    frame
        .chunks_exact(4)
        .enumerate()
        .filter(|(_, p)| p == &[255, 0, 0, 255])
        .map(|(i, _)| i)
        .collect()
}

fn line(width: i32, height: i32, from: (i32, i32), to: (i32, i32)) -> Vec<usize> {
    let mut frame = vec![0u8; (width * height * 4) as usize];
    draw_line(&mut frame, width, from.0, from.1, to.0, to.1, RED);
    red_pixels(&frame)
}

#[test]
fn set_pixel_writes_four_bytes() {
    let mut frame = vec![0u8; 12];
    set_pixel(&mut frame, 1, LuaRGBA { r: 1, g: 2, b: 3, a: 4 });
    assert_eq!(frame, vec![0, 0, 0, 0, 1, 2, 3, 4, 0, 0, 0, 0]);
    set_pixel(&mut frame, 3, RED);
    assert_eq!(frame, vec![0, 0, 0, 0, 1, 2, 3, 4, 0, 0, 0, 0]);
}

#[test]
fn set_pixel_leaves_an_incomplete_pixel_alone() {
    let mut frame = vec![0u8; 7];
    set_pixel(&mut frame, 1, RED);
    assert_eq!(frame, vec![0u8; 7]);
    set_pixel(&mut frame, 0, RED);
    assert_eq!(frame, vec![255, 0, 0, 255, 0, 0, 0]);
}

#[test]
fn draw_pixel_finds_row_and_column() {
    let mut frame = vec![0u8; 3 * 2 * 4];
    draw_pixel(&mut frame, 3, 2, 1, RED);
    assert_eq!(red_pixels(&frame), vec![5]);
}

#[test]
fn draw_pixel_outside_the_frame_draws_nothing() {
    let mut frame = vec![0u8; 3 * 2 * 4];
    draw_pixel(&mut frame, 3, 3, 0, RED);
    draw_pixel(&mut frame, 3, 0, 2, RED);
    draw_pixel(&mut frame, 0, 0, 0, RED);
    draw_pixel(&mut frame, 3, usize::MAX, usize::MAX, RED);
    draw_pixel(&mut frame, usize::MAX, 7, usize::MAX, RED);
    assert_eq!(red_pixels(&frame), Vec::<usize>::new());
}

#[test]
fn shallow_line() {
    assert_eq!(line(4, 2, (0, 0), (3, 1)), vec![0, 1, 6, 7]);
}

#[test]
fn horizontal_vertical_and_diagonal_lines() {
    assert_eq!(line(4, 4, (0, 2), (3, 2)), vec![8, 9, 10, 11]);
    assert_eq!(line(4, 4, (1, 0), (1, 3)), vec![1, 5, 9, 13]);
    assert_eq!(line(4, 4, (0, 0), (3, 3)), vec![0, 5, 10, 15]);
    assert_eq!(line(4, 4, (3, 0), (0, 3)), vec![3, 6, 9, 12]);
}

#[test]
fn line_is_the_same_in_both_directions_for_a_diagonal() {
    assert_eq!(line(5, 5, (4, 4), (0, 0)), line(5, 5, (0, 0), (4, 4)));
}

#[test]
fn steep_line() {
    assert_eq!(line(3, 5, (0, 0), (1, 4)), vec![0, 3, 7, 10, 13]);
}

#[test]
fn line_of_one_point() {
    assert_eq!(line(3, 3, (1, 1), (1, 1)), vec![4]);
}

#[test]
fn line_leaves_out_what_the_frame_does_not_hold() {
    assert_eq!(line(3, 2, (0, 0), (0, 4)), vec![0, 3]);
    assert_eq!(line(3, 2, (0, -2), (0, 1)), vec![0, 3]);
}

#[test]
fn line_past_the_last_column_runs_into_the_next_row() {
    assert_eq!(line(3, 2, (1, 0), (4, 0)), vec![1, 2, 3, 4]);
}

#[test]
fn line_with_extreme_ends_returns() {
    let mut frame = vec![0u8; 16];
    draw_line(&mut frame, 2, 0, 0, 0, 100_000, RED);
    assert_eq!(red_pixels(&frame), vec![0, 2]);
    draw_line(&mut frame, i32::MAX, i32::MIN, i32::MIN, i32::MIN + 3, i32::MIN, RED);
    assert_eq!(red_pixels(&frame), vec![0, 2]);
}

#[test]
fn replace_pixel_needs_four_bytes() {
    let mut frame = vec![0u8; 8];
    assert!(replace_pixel(&mut frame, 1, &[9, 8, 7, 6]));
    assert_eq!(frame, vec![0, 0, 0, 0, 9, 8, 7, 6]);
    assert!(!replace_pixel(&mut frame, 1, &[1, 2, 3]));
    assert!(!replace_pixel(&mut frame, 2, &[1, 2, 3, 4]));
    assert_eq!(frame, vec![0, 0, 0, 0, 9, 8, 7, 6]);
}

#[test]
fn replace_frame_needs_the_same_length() {
    let mut frame = vec![0u8; 4];
    assert!(replace_frame(&mut frame, &[1, 2, 3, 4]));
    assert_eq!(frame, vec![1, 2, 3, 4]);
    assert!(!replace_frame(&mut frame, &[5, 6, 7]));
    assert_eq!(frame, vec![1, 2, 3, 4]);
}
