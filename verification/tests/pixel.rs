use rusty_calendar::pixel::{blit_pixmap, copy_frame_in_order, copy_frame_to_dumb_buffer, fill_frame};
use rusty_calendar::theme::hex;

#[test]
fn blit_draws_clipped_to_the_window() {
    // A 3 x 2 window, all white.
    let mut buffer = vec![0xffffff_u32; 6];
    // A 2 x 2 image: opaque red, transparent, opaque blue, half black.
    let src = [255, 0, 0, 255, 0, 0, 0, 0, 0, 0, 255, 255, 0, 0, 0, 128];
    blit_pixmap(&mut buffer, 3, 2, &src, 2, 2, 2, 0);
    // Only the left column of the image lies in the window (x = 2).
    assert_eq!(buffer, vec![0xffffff, 0xffffff, 0xff0000, 0xffffff, 0xffffff, 0x0000ff]);
}

#[test]
fn blit_leaves_the_rest_of_a_larger_buffer() {
    let mut buffer = vec![0x010101_u32; 5];
    let src = [9, 9, 9, 255];
    blit_pixmap(&mut buffer, 2, 2, &src, 1, 1, 1, 1);
    assert_eq!(buffer, vec![0x010101, 0x010101, 0x010101, 0x090909, 0x010101]);
}

#[test]
fn frames_are_copied_row_by_row_into_the_pitch() {
    let frame = [0x11223344_u32, 0x55667788, 0x99aabbcc, 0xddeeff00];
    let mut mapping = vec![0xee_u8; 20];
    copy_frame_to_dumb_buffer(&frame, &mut mapping, 2, 2, 10);
    let mut expected = vec![0xee_u8; 20];
    expected[0..4].copy_from_slice(&frame[0].to_ne_bytes());
    expected[4..8].copy_from_slice(&frame[1].to_ne_bytes());
    expected[10..14].copy_from_slice(&frame[2].to_ne_bytes());
    expected[14..18].copy_from_slice(&frame[3].to_ne_bytes());
    assert_eq!(mapping, expected);
}

#[test]
fn a_short_pitch_lets_later_rows_overwrite_earlier_pixels() {
    let frame = [1_u32, 2, 3, 4];
    let mut mapping = vec![0_u8; 12];
    copy_frame_to_dumb_buffer(&frame, &mut mapping, 2, 2, 4);
    let mut expected = Vec::new();
    expected.extend_from_slice(&1_u32.to_ne_bytes());
    expected.extend_from_slice(&3_u32.to_ne_bytes());
    expected.extend_from_slice(&4_u32.to_ne_bytes());
    assert_eq!(mapping, expected);
}

#[test]
fn copies_in_the_given_byte_order() {
    let frame = [0x11223344_u32, 0x55667788];
    let mut little = vec![0xee_u8; 10];
    copy_frame_in_order(&frame, &mut little, 2, 1, 10, true);
    assert_eq!(little, vec![0x44, 0x33, 0x22, 0x11, 0x88, 0x77, 0x66, 0x55, 0xee, 0xee]);
    let mut big = vec![0xee_u8; 10];
    copy_frame_in_order(&frame, &mut big, 2, 1, 10, false);
    assert_eq!(big, vec![0x11, 0x22, 0x33, 0x44, 0x55, 0x66, 0x77, 0x88, 0xee, 0xee]);
}

#[test]
fn the_machine_order_is_the_native_one() {
    let frame = [0x11223344_u32];
    let mut out = vec![0_u8; 4];
    copy_frame_to_dumb_buffer(&frame, &mut out, 1, 1, 4);
    assert_eq!(out, 0x11223344_u32.to_ne_bytes().to_vec());
}

#[test]
fn fill_paints_every_pixel() {
    let mut buffer = vec![0_u32; 6];
    fill_frame(&mut buffer, hex(0xeff1f5));
    assert_eq!(buffer, vec![0xeff1f5; 6]);
}
