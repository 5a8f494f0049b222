use rusty_calendar::touch::{
    is_event_device_name, AxisRange, PointerEvent, PointerKind, RawPosition, TouchCapabilities, TouchInput, TouchState,
};

fn range(min: i32, max: i32) -> AxisRange {
    AxisRange { min, max }
}

fn fresh() -> TouchState {
    TouchState::new(Some(range(0, 4095)), None, None, Some(range(0, 2047)))
}

#[test]
fn new_state_falls_back_to_multitouch_ranges() {
    let s = fresh();
    assert_eq!(s.x_range, Some(range(0, 4095)));
    assert_eq!(s.y_range, Some(range(0, 2047)));
    assert_eq!(s.raw_x, None);
    assert_eq!(s.raw_y, None);
    assert!(!s.pressed);
    assert_eq!(s.position(), None);
}

#[test]
fn axis_values_move_only_while_pressed() {
    let mut s = fresh();
    let (dirty, events) = s.handle_event(TouchInput::AxisX(100));
    assert!(dirty);
    assert!(events.is_empty());
    let (dirty, events) = s.handle_event(TouchInput::AxisY(200));
    assert!(dirty);
    assert!(events.is_empty());
    let at = RawPosition { x: 100, x_range: range(0, 4095), y: 200, y_range: range(0, 2047) };
    assert_eq!(s.position(), Some(at));

    let (dirty, events) = s.handle_event(TouchInput::TouchKey(1));
    assert!(dirty);
    assert!(s.pressed);
    assert_eq!(events, vec![PointerEvent { kind: PointerKind::Down, position: at }]);

    let (_, events) = s.handle_event(TouchInput::AxisX(150));
    let moved = RawPosition { x: 150, ..at };
    assert_eq!(events, vec![PointerEvent { kind: PointerKind::Move, position: moved }]);
}

#[test]
fn release_gives_up_and_click() {
    let mut s = fresh();
    s.handle_event(TouchInput::AxisX(10));
    s.handle_event(TouchInput::AxisY(20));
    s.handle_event(TouchInput::TouchKey(1));
    let (dirty, events) = s.handle_event(TouchInput::TouchKey(0));
    let at = RawPosition { x: 10, x_range: range(0, 4095), y: 20, y_range: range(0, 2047) };
    assert!(dirty);
    assert!(!s.pressed);
    assert_eq!(
        events,
        vec![
            PointerEvent { kind: PointerKind::Up, position: at },
            PointerEvent { kind: PointerKind::Click, position: at },
        ]
    );
}

#[test]
fn touch_without_position_gives_no_events() {
    let mut s = fresh();
    let (dirty, events) = s.handle_event(TouchInput::TouchKey(1));
    assert!(dirty);
    assert!(s.pressed);
    assert!(events.is_empty());
}

#[test]
fn other_inputs_change_nothing() {
    let mut s = fresh();
    let before = s;
    let (dirty, events) = s.handle_event(TouchInput::Other);
    assert!(!dirty);
    assert!(events.is_empty());
    let (dirty, events) = s.handle_event(TouchInput::TouchKey(-1));
    assert!(!dirty);
    assert!(events.is_empty());
    assert_eq!(s, before);
}

#[test]
fn touchscreen_needs_an_axis_and_the_touch_key() {
    let mut caps = TouchCapabilities {
        abs_x: false,
        abs_y: false,
        abs_mt_position_x: true,
        abs_mt_position_y: false,
        btn_touch: true,
    };
    assert!(caps.is_touchscreen());
    caps.btn_touch = false;
    assert!(!caps.is_touchscreen());
    caps.btn_touch = true;
    caps.abs_mt_position_x = false;
    assert!(!caps.is_touchscreen());
}

#[test]
fn event_device_names() {
    assert!(is_event_device_name("event0"));
    assert!(is_event_device_name("event12"));
    assert!(!is_event_device_name("mouse0"));
    assert!(!is_event_device_name("even"));
    assert!(!is_event_device_name(""));
}
