use vstd::prelude::*;
use crate::ev::{Axis, AxisOrBtn, Button, Code, Event, EventType};
use crate::filter::{axis_value, axis_value_spec, btn_value, btn_value_spec};
use crate::gamepad::{axis_info_spec, find_axis_info, Gamepad};
use crate::native::{button_nec, native_code_spec};
use crate::raw::{deadzone_spec, AxisInfo, EvCode};
use crate::raw::Event as RawEvent;
use crate::raw::EventType as RawEventType;
use crate::state::StateView;
use crate::value::Ratio;

verus! {

pub open spec fn zero() -> Ratio {
    Ratio { num: 0, den: 1 }
}

pub open spec fn one() -> Ratio {
    Ratio { num: 1, den: 1 }
}

pub open spec fn minus_one() -> Ratio {
    Ratio { num: -1i64, den: 1 }
}

/// Largest difference between two axis values that jitter suppression treats as no change.
pub open spec fn jitter_threshold() -> Ratio {
    Ratio { num: 1, den: 100 }
}

pub open spec fn mk(id: usize, time: std::time::SystemTime, e: EventType) -> Event {
    Event { id, event: e, time }
}

/// Whether the button with code `c` is pressed in state `s`.
pub open spec fn pressed_in(s: StateView, c: Code) -> bool {
    s.buttons.contains_key(c.0.id() as u32) && s.buttons[c.0.id() as u32].is_pressed
}

/// Value of the element with code `c` in state `s`.
pub open spec fn value_in(s: StateView, c: Code) -> Ratio {
    if s.axes.contains_key(c.0.id() as u32) {
        s.axes[c.0.id() as u32].value
    } else if s.buttons.contains_key(c.0.id() as u32) {
        s.buttons[c.0.id() as u32].value
    } else {
        zero()
    }
}

/// Events of a raw press (`down`) or release of code `c` mapped to `m`: a button gives the
/// press or release followed by its value change, an axis gives only its value change, and an
/// unmapped code is reported as `Button::Unknown`.
pub open spec fn button_events(
    m: Option<AxisOrBtn>,
    c: Code,
    down: bool,
    id: usize,
    time: std::time::SystemTime,
) -> Seq<Event> {
    let v = if down {
        one()
    } else {
        zero()
    };
    let b = match m {
        Some(AxisOrBtn::Btn(b)) => b,
        _ => Button::Unknown,
    };
    match m {
        Some(AxisOrBtn::Axis(a)) => seq![mk(id, time, EventType::AxisChanged(a, v, c))],
        _ => seq![
            mk(
                id,
                time,
                if down {
                    EventType::ButtonPressed(b, c)
                } else {
                    EventType::ButtonReleased(b, c)
                },
            ),
            mk(id, time, EventType::ButtonChanged(b, v, c)),
        ],
    }
}

/// Events of raw axis value `v` of code `c`. An axis mapped to a button goes through
/// hysteresis: it is pressed when its value reaches `pressed_t` while released, and released
/// when its value falls to `released_t` while pressed.
pub open spec fn axis_events(
    gp: Gamepad,
    pressed_t: Ratio,
    released_t: Ratio,
    info: AxisInfo,
    v: i32,
    c: Code,
    id: usize,
    time: std::time::SystemTime,
) -> Seq<Event> {
    match gp.mapping_spec().map_spec(c.0) {
        Some(AxisOrBtn::Btn(b)) => {
            let val = btn_value_spec(info, v);
            let pressed = pressed_in(gp.state_view(), c);
            if pressed_t.le_spec(val) && !pressed {
                seq![
                    mk(id, time, EventType::ButtonPressed(b, c)),
                    mk(id, time, EventType::ButtonChanged(b, val, c)),
                ]
            } else if val.le_spec(released_t) && pressed {
                seq![
                    mk(id, time, EventType::ButtonReleased(b, c)),
                    mk(id, time, EventType::ButtonChanged(b, val, c)),
                ]
            } else {
                seq![mk(id, time, EventType::ButtonChanged(b, val, c))]
            }
        },
        Some(AxisOrBtn::Axis(a)) => seq![
            mk(id, time, EventType::AxisChanged(a, axis_value_spec(info, v, a), c)),
        ],
        None => seq![
            mk(
                id,
                time,
                EventType::AxisChanged(Axis::Unknown, axis_value_spec(info, v, Axis::Unknown), c),
            ),
        ],
    }
}

/// Events that a raw button or axis event of gamepad `gp` becomes, in order. An axis event of
/// an axis the device did not describe becomes none.
pub open spec fn translate_spec(gp: Gamepad, pressed_t: Ratio, released_t: Ratio, raw: RawEvent) -> Seq<
    Event,
> {
    match raw.event {
        RawEventType::ButtonPressed(nec) => button_events(
            gp.mapping_spec().map_spec(nec),
            Code(nec),
            true,
            raw.id,
            raw.time,
        ),
        RawEventType::ButtonReleased(nec) => button_events(
            gp.mapping_spec().map_spec(nec),
            Code(nec),
            false,
            raw.id,
            raw.time,
        ),
        RawEventType::AxisValueChanged(v, nec) => match axis_info_spec(
            gp.info_spec().axis_info@,
            nec,
        ) {
            Some(info) => axis_events(gp, pressed_t, released_t, info, v, Code(nec), raw.id, raw.time),
            None => Seq::<Event>::empty(),
        },
        _ => Seq::<Event>::empty(),
    }
}

/// Translates a raw button or axis event of gamepad `gp`.
pub fn translate(gp: &Gamepad, pressed_t: &Ratio, released_t: &Ratio, raw: &RawEvent) -> (r: Vec<Event>)
    requires
        gp.wf(),
        pressed_t.wf(),
        released_t.wf(),
    ensures
        r@ == translate_spec(*gp, *pressed_t, *released_t, *raw),
{
    let id = raw.id;
    let time = raw.time;
    let mut out: Vec<Event> = Vec::new();
    match raw.event {
        RawEventType::ButtonPressed(nec) | RawEventType::ButtonReleased(nec) => {
            let down = match raw.event {
                RawEventType::ButtonPressed(_) => true,
                _ => false,
            };
            let c = Code(nec);
            let v = if down {
                Ratio::one()
            } else {
                Ratio::zero()
            };
            match gp.axis_or_btn_name(c) {
                Some(AxisOrBtn::Axis(a)) => {
                    out.push(Event::new(id, EventType::AxisChanged(a, v, c), time));
                },
                m => {
                    let b = match m {
                        Some(AxisOrBtn::Btn(b)) => b,
                        _ => Button::Unknown,
                    };
                    let first = if down {
                        EventType::ButtonPressed(b, c)
                    } else {
                        EventType::ButtonReleased(b, c)
                    };
                    out.push(Event::new(id, first, time));
                    out.push(Event::new(id, EventType::ButtonChanged(b, v, c), time));
                },
            }
        },
        RawEventType::AxisValueChanged(v, nec) => {
            let c = Code(nec);
            if let Some(info) = find_axis_info(&gp.info_ref().axis_info, nec) {
                match gp.axis_or_btn_name(c) {
                    Some(AxisOrBtn::Btn(b)) => {
                        let val = btn_value(&info, v);
                        let pressed = gp.state().is_pressed(c);
                        if pressed_t.le(&val) && !pressed {
                            out.push(Event::new(id, EventType::ButtonPressed(b, c), time));
                            out.push(Event::new(id, EventType::ButtonChanged(b, val, c), time));
                        } else if val.le(released_t) && pressed {
                            out.push(Event::new(id, EventType::ButtonReleased(b, c), time));
                            out.push(Event::new(id, EventType::ButtonChanged(b, val, c), time));
                        } else {
                            out.push(Event::new(id, EventType::ButtonChanged(b, val, c), time));
                        }
                    },
                    Some(AxisOrBtn::Axis(a)) => {
                        let val = axis_value(&info, v, a);
                        out.push(Event::new(id, EventType::AxisChanged(a, val, c), time));
                    },
                    None => {
                        let val = axis_value(&info, v, Axis::Unknown);
                        out.push(Event::new(id, EventType::AxisChanged(Axis::Unknown, val, c), time));
                    },
                }
            }
        },
        _ => {},
    }
    proof {
        assert(out@ =~= translate_spec(*gp, *pressed_t, *released_t, *raw));
    }
    out
}

/// Code that the common layout gives to D-pad button `b`.
pub open spec fn dpad_code(b: Button) -> Code {
    match native_code_spec(AxisOrBtn::Btn(b)) {
        Some(c) => Code(c),
        None => Code(EvCode { kind: 0, code: 0 }),
    }
}

/// D-pad buttons synthesized from one D-pad axis: `1` presses `pos`, `-1` presses `neg`, and
/// any other value releases whichever of the two is pressed (`pos` first); with neither
/// pressed the event is dropped.
pub open spec fn dpad_axis_spec(gp: Gamepad, e: Event, val: Ratio, pos: Button, neg: Button) -> Event {
    let pc = dpad_code(pos);
    let nc = dpad_code(neg);
    if val.wf() && val.same(one()) {
        Event { event: EventType::ButtonPressed(pos, pc), ..e }
    } else if val.wf() && val.same(minus_one()) {
        Event { event: EventType::ButtonPressed(neg, nc), ..e }
    } else if pressed_in(gp.state_view(), pc) {
        Event { event: EventType::ButtonReleased(pos, pc), ..e }
    } else if pressed_in(gp.state_view(), nc) {
        Event { event: EventType::ButtonReleased(neg, nc), ..e }
    } else {
        Event { event: EventType::Dropped, ..e }
    }
}

/// First filter: on a device whose D-pad is two axes only, D-pad axis changes become D-pad
/// button presses and releases.
pub open spec fn dpad_filter_spec(gp: Gamepad, e: Event) -> Event {
    if !gp.dpad_from_axes_spec() {
        e
    } else {
        match e.event {
            EventType::AxisChanged(Axis::DPadX, val, _) => dpad_axis_spec(
                gp,
                e,
                val,
                Button::DPadRight,
                Button::DPadLeft,
            ),
            EventType::AxisChanged(Axis::DPadY, val, _) => dpad_axis_spec(
                gp,
                e,
                val,
                Button::DPadUp,
                Button::DPadDown,
            ),
            _ => e,
        }
    }
}

/// Second filter: an axis change closer than [`jitter_threshold`] to the cached axis value is
/// dropped.
pub open spec fn jitter_filter_spec(gp: Gamepad, e: Event) -> Event {
    match e.event {
        EventType::AxisChanged(_, val, c) => {
            let s = gp.state_view();
            let k = c.0.id() as u32;
            if s.axes.contains_key(k) && val.wf() && s.axes[k].value.wf() && val.close_spec(
                s.axes[k].value,
                jitter_threshold(),
            ) {
                Event { event: EventType::Dropped, ..e }
            } else {
                e
            }
        },
        _ => e,
    }
}

/// `-thr <= val <= thr`.
pub open spec fn in_deadzone(val: Ratio, thr: Ratio) -> bool {
    Ratio { num: (-thr.num) as i64, den: thr.den }.le_spec(val) && val.le_spec(thr)
}

/// Dead zone of the axis with code `c`, zero if the device did not describe it.
pub open spec fn deadzone_of(gp: Gamepad, c: Code) -> Ratio {
    match axis_info_spec(gp.info_spec().axis_info@, c.0) {
        Some(i) => deadzone_spec(i),
        None => zero(),
    }
}

/// Third filter: an axis value within the axis's dead zone becomes exactly zero, and the change
/// is dropped when the cached value already equals the result.
pub open spec fn deadzone_filter_spec(gp: Gamepad, e: Event) -> Event {
    match e.event {
        EventType::AxisChanged(a, val, c) => {
            if !val.wf() {
                e
            } else {
                let thr = deadzone_of(gp, c);
                let clipped = if in_deadzone(val, thr) {
                    zero()
                } else {
                    val
                };
                let cur = value_in(gp.state_view(), c);
                if cur.wf() && cur.same(clipped) {
                    Event { event: EventType::Dropped, ..e }
                } else {
                    Event { event: EventType::AxisChanged(a, clipped, c), ..e }
                }
            }
        },
        _ => e,
    }
}

/// An axis value within the dead zone of its axis becomes exactly zero, and no event is left
/// when the cached value of the axis is already zero.
pub proof fn lemma_deadzone_zeroes(gp: Gamepad, e: Event, a: Axis, val: Ratio, c: Code)
    requires
        e.event == EventType::AxisChanged(a, val, c),
        val.wf(),
        in_deadzone(val, deadzone_of(gp, c)),
    ensures
        value_in(gp.state_view(), c).wf() && value_in(gp.state_view(), c).num == 0
            ==> deadzone_filter_spec(gp, e).event is Dropped,
        !(value_in(gp.state_view(), c).wf() && value_in(gp.state_view(), c).num == 0)
            ==> deadzone_filter_spec(gp, e).event == EventType::AxisChanged(a, zero(), c),
{
    let cur = value_in(gp.state_view(), c);
    assert(cur.num * 1 == cur.num && 0 * cur.den == 0) by (nonlinear_arith);
}

/// The default filter chain: D-pad synthesis, jitter suppression, dead zone.
pub open spec fn filter_spec(gp: Gamepad, e: Event) -> Event {
    deadzone_filter_spec(gp, jitter_filter_spec(gp, dpad_filter_spec(gp, e)))
}

fn dpad_code_of(b: Button) -> (r: Code)
    ensures
        r == dpad_code(b),
{
    match button_nec(b) {
        Some(c) => Code(c),
        None => Code(EvCode::new(0, 0)),
    }
}

fn dpad_axis(gp: &Gamepad, e: Event, val: Ratio, pos: Button, neg: Button) -> (r: Event)
    ensures
        r == dpad_axis_spec(*gp, e, val, pos, neg),
{
    let pc = dpad_code_of(pos);
    let nc = dpad_code_of(neg);
    let ok = val.is_wf();
    if ok && val.eq_value(&Ratio::one()) {
        Event { event: EventType::ButtonPressed(pos, pc), ..e }
    } else if ok && val.eq_value(&Ratio::new(-1, 1)) {
        Event { event: EventType::ButtonPressed(neg, nc), ..e }
    } else if gp.state().is_pressed(pc) {
        Event { event: EventType::ButtonReleased(pos, pc), ..e }
    } else if gp.state().is_pressed(nc) {
        Event { event: EventType::ButtonReleased(neg, nc), ..e }
    } else {
        Event { event: EventType::Dropped, ..e }
    }
}

/// Runs the default filter chain on `e`, an event of gamepad `gp`.
pub fn filter(gp: &Gamepad, e: Event) -> (r: Event)
    ensures
        r == filter_spec(*gp, e),
{
    let e1 = if !gp.dpad_from_axes() {
        e
    } else {
        match e.event {
            EventType::AxisChanged(Axis::DPadX, val, _) => dpad_axis(
                gp,
                e,
                val,
                Button::DPadRight,
                Button::DPadLeft,
            ),
            EventType::AxisChanged(Axis::DPadY, val, _) => dpad_axis(
                gp,
                e,
                val,
                Button::DPadUp,
                Button::DPadDown,
            ),
            _ => e,
        }
    };
    let e2 = match e1.event {
        EventType::AxisChanged(_, val, c) => {
            match gp.state().axis_data(c) {
                Some(d) => {
                    let eps = Ratio::new(1, 100);
                    if val.is_wf() && d.value.is_wf() && val.is_close(&d.value, &eps) {
                        Event { event: EventType::Dropped, ..e1 }
                    } else {
                        e1
                    }
                },
                None => e1,
            }
        },
        _ => e1,
    };
    match e2.event {
        EventType::AxisChanged(a, val, c) => {
            if !val.is_wf() {
                e2
            } else {
                let thr = match find_axis_info(&gp.info_ref().axis_info, c.0) {
                    Some(i) => i.deadzone(),
                    None => Ratio::zero(),
                };
                let neg = Ratio::new(-thr.num, thr.den);
                let clipped = if neg.le(&val) && val.le(&thr) {
                    Ratio::zero()
                } else {
                    val
                };
                let cur = gp.state().value(c);
                if cur.is_wf() && cur.eq_value(&clipped) {
                    Event { event: EventType::Dropped, ..e2 }
                } else {
                    Event { event: EventType::AxisChanged(a, clipped, c), ..e2 }
                }
            }
        },
        _ => e2,
    }
}

} // verus!
