use rusty_calendar::display::{advance_tick, encoder_candidates, pick_mode, select_encoder_and_crtc, EncoderInfo};

#[test]
fn picks_first_preferred_mode() {
    assert_eq!(pick_mode(&vec![false, true, true]), Some(1));
    assert_eq!(pick_mode(&vec![false, false]), Some(0));
    assert_eq!(pick_mode(&vec![]), None);
}

#[test]
fn current_encoder_is_tried_first() {
    assert_eq!(encoder_candidates(Some(9), &vec![3, 9]), vec![9, 3, 9]);
    assert_eq!(encoder_candidates(None, &vec![3, 4]), vec![3, 4]);
}

#[test]
fn keeps_current_crtc_when_possible() {
    let infos = vec![
        None,
        Some(EncoderInfo { handle: 5, crtc: None, possible_crtcs: vec![] }),
        Some(EncoderInfo { handle: 7, crtc: Some(3), possible_crtcs: vec![4, 3] }),
        Some(EncoderInfo { handle: 8, crtc: None, possible_crtcs: vec![1] }),
    ];
    assert_eq!(select_encoder_and_crtc(&infos), Some((7, 3)));
}

#[test]
fn falls_back_to_first_possible_crtc() {
    let infos = vec![Some(EncoderInfo { handle: 7, crtc: Some(9), possible_crtcs: vec![4, 3] })];
    assert_eq!(select_encoder_and_crtc(&infos), Some((7, 4)));
    let none = vec![None, Some(EncoderInfo { handle: 1, crtc: None, possible_crtcs: vec![] })];
    assert_eq!(select_encoder_and_crtc(&none), None);
}

#[test]
fn tick_schedule_skips_missed_ticks() {
    assert_eq!(advance_tick(500, 1000, 1000), (false, 1000));
    assert_eq!(advance_tick(1000, 1000, 1000), (true, 2000));
    assert_eq!(advance_tick(3500, 1000, 1000), (true, 4000));
}
