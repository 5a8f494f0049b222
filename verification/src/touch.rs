//! The touch screen of the Pi display: which input devices count as touch
//! screens, and how their raw axis and key events become pointer events.
//! Positions stay raw device values here; the caller scales them to pixels.

use vstd::prelude::*;
use vstd::string::StrSliceExecFns;

verus! {

/// The range that a touch device reports for one absolute axis.
#[derive(Clone, Copy, Debug, PartialEq, Eq, Structural)]
pub struct AxisRange {
    pub min: i32,
    pub max: i32,
}

/// What an input device says it supports, as far as touch detection needs it.
#[derive(Clone, Copy, Debug, PartialEq, Eq, Structural)]
pub struct TouchCapabilities {
    pub abs_x: bool,
    pub abs_y: bool,
    pub abs_mt_position_x: bool,
    pub abs_mt_position_y: bool,
    pub btn_touch: bool,
}

impl TouchCapabilities {
    /// A device is a touch screen when it has some absolute position axis and
    /// the touch key.
    pub fn is_touchscreen(&self) -> (b: bool)
        ensures
            b == ((self.abs_x || self.abs_y || self.abs_mt_position_x || self.abs_mt_position_y)
                && self.btn_touch),
    {
        let has_abs = self.abs_x || self.abs_y || self.abs_mt_position_x || self.abs_mt_position_y;
        has_abs && self.btn_touch
    }
}

/// One input event of a touch device, reduced to what the screen reacts to.
#[derive(Clone, Copy, Debug, PartialEq, Eq, Structural)]
pub enum TouchInput {
    /// A new value of the X axis (single touch or multi-touch slot).
    AxisX(i32),
    /// A new value of the Y axis (single touch or multi-touch slot).
    AxisY(i32),
    /// The touch key with its value: above zero pressed, zero released.
    TouchKey(i32),
    /// Anything else.
    Other,
}

/// Which pointer event a touch produces.
#[derive(Clone, Copy, Debug, PartialEq, Eq, Structural)]
pub enum PointerKind {
    Move,
    Down,
    Up,
    Click,
}

/// A raw position: both axis values with the ranges they are measured in.
#[derive(Clone, Copy, Debug, PartialEq, Eq, Structural)]
pub struct RawPosition {
    pub x: i32,
    pub x_range: AxisRange,
    pub y: i32,
    pub y_range: AxisRange,
}

/// A pointer event at a raw position.
#[derive(Clone, Copy, Debug, PartialEq, Eq, Structural)]
pub struct PointerEvent {
    pub kind: PointerKind,
    pub position: RawPosition,
}

/// What one touch device has told so far.
#[derive(Clone, Copy, Debug, PartialEq, Eq, Structural)]
pub struct TouchState {
    pub x_range: Option<AxisRange>,
    pub y_range: Option<AxisRange>,
    pub raw_x: Option<i32>,
    pub raw_y: Option<i32>,
    pub pressed: bool,
}

/// The position of a state, where both axes have a value and a range.
pub open spec fn spec_position(s: TouchState) -> Option<RawPosition> {
    match (s.raw_x, s.x_range, s.raw_y, s.y_range) {
        (Some(x), Some(x_range), Some(y), Some(y_range)) => Some(
            RawPosition { x, x_range, y, y_range },
        ),
        _ => None,
    }
}

/// The pointer events that a position gives for one kind of report: one event,
/// or none without a position.
pub open spec fn events_at(pos: Option<RawPosition>, kinds: Seq<PointerKind>) -> Seq<PointerEvent> {
    match pos {
        Some(p) => kinds.map_values(|k: PointerKind| PointerEvent { kind: k, position: p }),
        None => Seq::empty(),
    }
}

/// The state after one input.
pub open spec fn next_state(s: TouchState, input: TouchInput) -> TouchState {
    match input {
        TouchInput::AxisX(v) => TouchState { raw_x: Some(v), ..s },
        TouchInput::AxisY(v) => TouchState { raw_y: Some(v), ..s },
        TouchInput::TouchKey(v) => if v > 0 {
            TouchState { pressed: true, ..s }
        } else if v == 0 {
            TouchState { pressed: false, ..s }
        } else {
            s
        },
        TouchInput::Other => s,
    }
}

/// The pointer events that one input produces, at the position after it.
pub open spec fn input_events(s: TouchState, input: TouchInput) -> Seq<PointerEvent> {
    let pos = spec_position(next_state(s, input));
    match input {
        TouchInput::AxisX(_) | TouchInput::AxisY(_) => if s.pressed {
            events_at(pos, seq![PointerKind::Move])
        } else {
            Seq::empty()
        },
        TouchInput::TouchKey(v) => if v > 0 {
            events_at(pos, seq![PointerKind::Down])
        } else if v == 0 {
            events_at(pos, seq![PointerKind::Up, PointerKind::Click])
        } else {
            Seq::empty()
        },
        TouchInput::Other => Seq::empty(),
    }
}

/// Whether an input changes what the screen may show.
pub open spec fn input_is_relevant(input: TouchInput) -> bool {
    match input {
        TouchInput::AxisX(_) | TouchInput::AxisY(_) => true,
        TouchInput::TouchKey(v) => v >= 0,
        TouchInput::Other => false,
    }
}

impl TouchState {
    /// A freshly opened device: each axis takes its single-touch range, or the
    /// multi-touch range where the device has no single-touch one; nothing is
    /// pressed and no position is known yet.
    pub fn new(
        abs_x: Option<AxisRange>,
        mt_x: Option<AxisRange>,
        abs_y: Option<AxisRange>,
        mt_y: Option<AxisRange>,
    ) -> (s: Self)
        ensures
            s.x_range == (if abs_x is Some { abs_x } else { mt_x }),
            s.y_range == (if abs_y is Some { abs_y } else { mt_y }),
            s.raw_x is None,
            s.raw_y is None,
            !s.pressed,
    {
        let x_range = match abs_x {
            Some(r) => Some(r),
            None => mt_x,
        };
        let y_range = match abs_y {
            Some(r) => Some(r),
            None => mt_y,
        };
        TouchState { x_range, y_range, raw_x: None, raw_y: None, pressed: false }
    }

    /// The current raw position, where both axes have a value and a range.
    pub fn position(&self) -> (p: Option<RawPosition>)
        ensures
            p == spec_position(*self),
    {
        match (self.raw_x, self.x_range, self.raw_y, self.y_range) {
            (Some(x), Some(x_range), Some(y), Some(y_range)) => Some(
                RawPosition { x, x_range, y, y_range },
            ),
            _ => None,
        }
    }

    /// Takes one input: records the axis value or the touch key, and returns
    /// whether the screen may have to be redrawn together with the pointer
    /// events to hand on. An axis value moves the pointer while pressed; the
    /// touch key going down presses, going up releases and clicks; each event
    /// needs a known position.
    pub fn handle_event(&mut self, input: TouchInput) -> (r: (bool, Vec<PointerEvent>))
        ensures
            *final(self) == next_state(*old(self), input),
            r.0 == input_is_relevant(input),
            r.1@ == input_events(*old(self), input),
    {
        let mut events: Vec<PointerEvent> = Vec::new();
        let dirty = match input {
            TouchInput::AxisX(v) => {
                self.raw_x = Some(v);
                if self.pressed {
                    if let Some(p) = self.position() {
                        events.push(PointerEvent { kind: PointerKind::Move, position: p });
                    }
                }
                true
            },
            TouchInput::AxisY(v) => {
                self.raw_y = Some(v);
                if self.pressed {
                    if let Some(p) = self.position() {
                        events.push(PointerEvent { kind: PointerKind::Move, position: p });
                    }
                }
                true
            },
            TouchInput::TouchKey(v) => {
                if v > 0 {
                    self.pressed = true;
                    if let Some(p) = self.position() {
                        events.push(PointerEvent { kind: PointerKind::Down, position: p });
                    }
                    true
                } else if v == 0 {
                    self.pressed = false;
                    if let Some(p) = self.position() {
                        events.push(PointerEvent { kind: PointerKind::Up, position: p });
                        events.push(PointerEvent { kind: PointerKind::Click, position: p });
                    }
                    true
                } else {
                    false
                }
            },
            TouchInput::Other => false,
        };
        proof {
            let pos = spec_position(next_state(*old(self), input));
            if let Some(p) = pos {
                assert(seq![PointerKind::Move].map_values(
                    |k: PointerKind| PointerEvent { kind: k, position: p },
                ) =~= seq![PointerEvent { kind: PointerKind::Move, position: p }]);
                assert(seq![PointerKind::Down].map_values(
                    |k: PointerKind| PointerEvent { kind: k, position: p },
                ) =~= seq![PointerEvent { kind: PointerKind::Down, position: p }]);
                assert(seq![PointerKind::Up, PointerKind::Click].map_values(
                    |k: PointerKind| PointerEvent { kind: k, position: p },
                ) =~= seq![
                    PointerEvent { kind: PointerKind::Up, position: p },
                    PointerEvent { kind: PointerKind::Click, position: p },
                ]);
            }
        }
        (dirty, events)
    }
}

/// Whether a file under the input device directory is an event device node.
pub fn is_event_device_name(name: &str) -> (b: bool)
    ensures
        b == (name@.len() >= 5 && name@.subrange(0, 5) == "event"@),
{
    proof {
        reveal_strlit("event");
    }
    let prefix = "event";
    let n = name.unicode_len();
    if n < 5 {
        return false;
    }
    let mut i: usize = 0;
    while i < 5
        invariant
            i <= 5 <= n,
            n == name@.len(),
            prefix@ == "event"@,
            prefix@.len() == 5,
            forall|j: int| 0 <= j < i ==> name@[j] == prefix@[j],
        decreases 5 - i,
    {
        if name.get_char(i) != prefix.get_char(i) {
            assert(name@.subrange(0, 5)[i as int] != "event"@[i as int]);
            return false;
        }
        i = i + 1;
    }
    assert(name@.subrange(0, 5) =~= "event"@);
    true
}

/// While the screen is pressed, a new value on either axis moves the pointer:
/// X and Y alike give exactly one move event, at the position with the new
/// value on that axis and the other axis as it was.
pub proof fn lemma_axis_moves_while_pressed(s: TouchState, v: i32)
    requires
        s.pressed,
        s.x_range is Some,
        s.y_range is Some,
    ensures
        s.raw_y is Some ==> input_events(s, TouchInput::AxisX(v)) == seq![PointerEvent {
            kind: PointerKind::Move,
            position: RawPosition { x: v, x_range: s.x_range->0, y: s.raw_y->0, y_range: s.y_range->0 },
        }],
        s.raw_x is Some ==> input_events(s, TouchInput::AxisY(v)) == seq![PointerEvent {
            kind: PointerKind::Move,
            position: RawPosition { x: s.raw_x->0, x_range: s.x_range->0, y: v, y_range: s.y_range->0 },
        }],
        next_state(s, TouchInput::AxisX(v)).raw_x == Some(v),
        next_state(s, TouchInput::AxisY(v)).raw_y == Some(v),
        next_state(s, TouchInput::AxisX(v)).pressed && next_state(s, TouchInput::AxisY(v)).pressed,
{
    let px = PointerEvent {
        kind: PointerKind::Move,
        position: RawPosition { x: v, x_range: s.x_range->0, y: s.raw_y->0, y_range: s.y_range->0 },
    };
    let py = PointerEvent {
        kind: PointerKind::Move,
        position: RawPosition { x: s.raw_x->0, x_range: s.x_range->0, y: v, y_range: s.y_range->0 },
    };
    if s.raw_y is Some {
        assert(seq![PointerKind::Move].map_values(|k: PointerKind| PointerEvent { kind: k, position: px.position })
            =~= seq![px]);
    }
    if s.raw_x is Some {
        assert(seq![PointerKind::Move].map_values(|k: PointerKind| PointerEvent { kind: k, position: py.position })
            =~= seq![py]);
    }
}

/// Lifting the finger after touching a known position releases and clicks
/// there, in that order; touching down presses.
pub proof fn lemma_release_clicks(s: TouchState)
    requires
        spec_position(s) is Some,
    ensures
        input_events(s, TouchInput::TouchKey(0)) == seq![
            PointerEvent { kind: PointerKind::Up, position: spec_position(s)->0 },
            PointerEvent { kind: PointerKind::Click, position: spec_position(s)->0 },
        ],
        input_events(s, TouchInput::TouchKey(1)) == seq![PointerEvent { kind: PointerKind::Down, position: spec_position(s)->0 }],
        !next_state(s, TouchInput::TouchKey(0)).pressed,
        next_state(s, TouchInput::TouchKey(1)).pressed,
{
    let p = spec_position(s)->0;
    assert(spec_position(next_state(s, TouchInput::TouchKey(0))) == Some(p));
    assert(spec_position(next_state(s, TouchInput::TouchKey(1))) == Some(p));
    assert(seq![PointerKind::Up, PointerKind::Click].map_values(|k: PointerKind| PointerEvent { kind: k, position: p })
        =~= seq![PointerEvent { kind: PointerKind::Up, position: p }, PointerEvent { kind: PointerKind::Click, position: p }]);
    assert(seq![PointerKind::Down].map_values(|k: PointerKind| PointerEvent { kind: k, position: p })
        =~= seq![PointerEvent { kind: PointerKind::Down, position: p }]);
}

} // verus!
