use vstd::prelude::*;
use std::collections::HashMap;
use crate::ev::{Code, Event, EventType};
use crate::value::Ratio;

verus! {

broadcast use vstd::std_specs::hash::group_hash_axioms;

/// Cached state of one button: its value, whether it is pressed or repeating, and the counter
/// and time of its last change.
#[derive(Copy, Clone, Debug)]
pub struct ButtonData {
    pub value: Ratio,
    pub is_pressed: bool,
    pub is_repeating: bool,
    pub counter: u64,
    pub last_event_ts: std::time::SystemTime,
}

impl ButtonData {
    pub fn is_pressed(&self) -> (r: bool)
        ensures
            r == self.is_pressed,
    {
        self.is_pressed
    }

    pub fn value(&self) -> (r: Ratio)
        ensures
            r == self.value,
    {
        self.value
    }

    pub fn is_repeating(&self) -> (r: bool)
        ensures
            r == self.is_repeating,
    {
        self.is_repeating
    }

    pub fn counter(&self) -> (r: u64)
        ensures
            r == self.counter,
    {
        self.counter
    }

    pub fn timestamp(&self) -> (r: std::time::SystemTime)
        ensures
            r == self.last_event_ts,
    {
        self.last_event_ts
    }
}

/// Cached state of one axis: its value and the counter and time of its last change.
#[derive(Copy, Clone, Debug)]
pub struct AxisData {
    pub value: Ratio,
    pub counter: u64,
    pub last_event_ts: std::time::SystemTime,
}

impl AxisData {
    pub fn new(value: Ratio, counter: u64, time: std::time::SystemTime) -> (r: AxisData)
        ensures
            r == (AxisData { value, counter, last_event_ts: time }),
    {
        AxisData { value, counter, last_event_ts: time }
    }

    pub fn value(&self) -> (r: Ratio)
        ensures
            r == self.value,
    {
        self.value
    }

    pub fn counter(&self) -> (r: u64)
        ensures
            r == self.counter,
    {
        self.counter
    }

    pub fn timestamp(&self) -> (r: std::time::SystemTime)
        ensures
            r == self.last_event_ts,
    {
        self.last_event_ts
    }
}

/// Abstract cached state: button and axis data keyed by the integer form of their codes.
pub ghost struct StateView {
    pub buttons: Map<u32, ButtonData>,
    pub axes: Map<u32, AxisData>,
}

/// The data a button starts from before its first change.
pub open spec fn button_base(m: Map<u32, ButtonData>, k: u32, ts: std::time::SystemTime) -> ButtonData {
    if m.contains_key(k) {
        m[k]
    } else {
        ButtonData {
            value: Ratio { num: 0, den: 1 },
            is_pressed: false,
            is_repeating: false,
            counter: 0,
            last_event_ts: ts,
        }
    }
}

/// Effect of one event on the cached state, recording `counter` and the event's time.
pub open spec fn apply_spec(s: StateView, ev: EventType, counter: u64, ts: std::time::SystemTime) -> StateView {
    match ev {
        EventType::ButtonPressed(_, c) | EventType::ButtonReleased(_, c) => {
            let k = c.0.id() as u32;
            let b = button_base(s.buttons, k, ts);
            StateView {
                buttons: s.buttons.insert(
                    k,
                    ButtonData {
                        is_pressed: ev is ButtonPressed,
                        is_repeating: false,
                        counter,
                        last_event_ts: ts,
                        ..b
                    },
                ),
                ..s
            }
        },
        EventType::ButtonRepeated(_, c) => {
            let k = c.0.id() as u32;
            let b = button_base(s.buttons, k, ts);
            StateView {
                buttons: s.buttons.insert(
                    k,
                    ButtonData { is_repeating: true, counter, last_event_ts: ts, ..b },
                ),
                ..s
            }
        },
        EventType::ButtonChanged(_, v, c) => {
            let k = c.0.id() as u32;
            let b = button_base(s.buttons, k, ts);
            StateView {
                buttons: s.buttons.insert(
                    k,
                    ButtonData { value: v, counter, last_event_ts: ts, ..b },
                ),
                ..s
            }
        },
        EventType::AxisChanged(_, v, c) => {
            let k = c.0.id() as u32;
            StateView {
                axes: s.axes.insert(k, AxisData { value: v, counter, last_event_ts: ts }),
                ..s
            }
        },
        _ => s,
    }
}

/// Applying an event a second time, with the same counter, leaves the state it produced the
/// first time unchanged.
pub proof fn lemma_apply_idempotent(s: StateView, ev: EventType, counter: u64, ts: std::time::SystemTime)
    ensures
        apply_spec(apply_spec(s, ev, counter, ts), ev, counter, ts) == apply_spec(s, ev, counter, ts),
{
    let once = apply_spec(s, ev, counter, ts);
    let twice = apply_spec(once, ev, counter, ts);
    assert(twice.buttons =~= once.buttons);
    assert(twice.axes =~= once.axes);
}

/// Cached state of one gamepad, mutated only by the events it is given.
#[derive(Clone, Debug)]
pub struct GamepadState {
    buttons: HashMap<u32, ButtonData>,
    axes: HashMap<u32, AxisData>,
}

impl View for GamepadState {
    type V = StateView;

    closed spec fn view(&self) -> StateView {
        StateView { buttons: self.buttons@, axes: self.axes@ }
    }
}

impl GamepadState {
    /// State in which no element was ever seen.
    pub fn new() -> (r: GamepadState)
        ensures
            r@.buttons == Map::<u32, ButtonData>::empty(),
            r@.axes == Map::<u32, AxisData>::empty(),
    {
        GamepadState { buttons: HashMap::new(), axes: HashMap::new() }
    }

    /// Whether the button with code `c` is pressed; false if it never changed.
    pub fn is_pressed(&self, c: Code) -> (r: bool)
        ensures
            r == (self@.buttons.contains_key(c.0.id() as u32) && self@.buttons[c.0.id() as u32].is_pressed),
    {
        let k = c.into_u32();
        match self.buttons.get(&k) {
            Some(d) => d.is_pressed,
            None => false,
        }
    }

    /// Value of the element with code `c`: the axis value if `c` is an axis that changed, else
    /// the button value if it is a button that changed, else zero.
    pub fn value(&self, c: Code) -> (r: Ratio)
        ensures
            r == (if self@.axes.contains_key(c.0.id() as u32) {
                self@.axes[c.0.id() as u32].value
            } else if self@.buttons.contains_key(c.0.id() as u32) {
                self@.buttons[c.0.id() as u32].value
            } else {
                Ratio { num: 0, den: 1 }
            }),
    {
        let k = c.into_u32();
        match self.axes.get(&k) {
            Some(d) => d.value,
            None => match self.buttons.get(&k) {
                Some(d) => d.value,
                None => Ratio::zero(),
            },
        }
    }

    /// Data of the button with code `c`, if it ever changed.
    pub fn button_data(&self, c: Code) -> (r: Option<ButtonData>)
        ensures
            r == (if self@.buttons.contains_key(c.0.id() as u32) {
                Some(self@.buttons[c.0.id() as u32])
            } else {
                None::<ButtonData>
            }),
    {
        let k = c.into_u32();
        match self.buttons.get(&k) {
            Some(d) => Some(*d),
            None => None,
        }
    }

    /// Data of the axis with code `c`, if it ever changed.
    pub fn axis_data(&self, c: Code) -> (r: Option<AxisData>)
        ensures
            r == (if self@.axes.contains_key(c.0.id() as u32) {
                Some(self@.axes[c.0.id() as u32])
            } else {
                None::<AxisData>
            }),
    {
        let k = c.into_u32();
        match self.axes.get(&k) {
            Some(d) => Some(*d),
            None => None,
        }
    }

    fn base(&self, k: u32, ts: std::time::SystemTime) -> (r: ButtonData)
        ensures
            r == button_base(self@.buttons, k, ts),
    {
        match self.buttons.get(&k) {
            Some(d) => *d,
            None => ButtonData {
                value: Ratio::zero(),
                is_pressed: false,
                is_repeating: false,
                counter: 0,
                last_event_ts: ts,
            },
        }
    }

    /// Applies the effect of `ev` on the state, recording `counter` and the event's time.
    pub fn apply(&mut self, ev: &Event, counter: u64)
        ensures
            final(self)@ == apply_spec(old(self)@, ev.event, counter, ev.time),
    {
        let ts = ev.time;
        match ev.event {
            EventType::ButtonPressed(_, c) | EventType::ButtonReleased(_, c) => {
                let k = c.into_u32();
                let b = self.base(k, ts);
                let pressed = match ev.event {
                    EventType::ButtonPressed(_, _) => true,
                    _ => false,
                };
                let d = ButtonData {
                    is_pressed: pressed,
                    is_repeating: false,
                    counter,
                    last_event_ts: ts,
                    ..b
                };
                self.buttons.insert(k, d);
            },
            EventType::ButtonRepeated(_, c) => {
                let k = c.into_u32();
                let b = self.base(k, ts);
                let d = ButtonData { is_repeating: true, counter, last_event_ts: ts, ..b };
                self.buttons.insert(k, d);
            },
            EventType::ButtonChanged(_, v, c) => {
                let k = c.into_u32();
                let b = self.base(k, ts);
                let d = ButtonData { value: v, counter, last_event_ts: ts, ..b };
                self.buttons.insert(k, d);
            },
            EventType::AxisChanged(_, v, c) => {
                let k = c.into_u32();
                self.axes.insert(k, AxisData::new(v, counter, ts));
            },
            _ => {},
        }
    }
}

} // verus!
