use vstd::prelude::*;
use crate::ev::{Axis, AxisOrBtn, Button};
use crate::raw::EvCode;

verus! {

/// Event kind of keys and buttons.
pub const EV_KEY: u16 = 1;

/// Event kind of absolute axes.
pub const EV_ABS: u16 = 3;

/// Native code of the key or axis that most gamepads report for a logical button.
pub open spec fn button_code_spec(b: Button) -> Option<u16> {
    match b {
        Button::South => Some(0x130u16),
        Button::East => Some(0x131u16),
        Button::C => Some(0x132u16),
        Button::North => Some(0x133u16),
        Button::West => Some(0x134u16),
        Button::Z => Some(0x135u16),
        Button::LeftTrigger => Some(0x136u16),
        Button::RightTrigger => Some(0x137u16),
        Button::LeftTrigger2 => Some(0x138u16),
        Button::RightTrigger2 => Some(0x139u16),
        Button::Select => Some(0x13au16),
        Button::Start => Some(0x13bu16),
        Button::Mode => Some(0x13cu16),
        Button::LeftThumb => Some(0x13du16),
        Button::RightThumb => Some(0x13eu16),
        Button::DPadUp => Some(0x220u16),
        Button::DPadDown => Some(0x221u16),
        Button::DPadLeft => Some(0x222u16),
        Button::DPadRight => Some(0x223u16),
        Button::Unknown => None,
    }
}

/// Native code of the absolute axis that most gamepads report for a logical axis.
pub open spec fn axis_code_spec(a: Axis) -> Option<u16> {
    match a {
        Axis::LeftStickX => Some(0x00u16),
        Axis::LeftStickY => Some(0x01u16),
        Axis::LeftZ => Some(0x02u16),
        Axis::RightStickX => Some(0x03u16),
        Axis::RightStickY => Some(0x04u16),
        Axis::RightZ => Some(0x05u16),
        Axis::DPadX => Some(0x10u16),
        Axis::DPadY => Some(0x11u16),
        Axis::Unknown => None,
    }
}

/// The platform code that the common layout gives to a logical element.
pub open spec fn native_code_spec(e: AxisOrBtn) -> Option<EvCode> {
    match e {
        AxisOrBtn::Btn(b) => match button_code_spec(b) {
            Some(c) => Some(EvCode { kind: EV_KEY, code: c }),
            None => None,
        },
        AxisOrBtn::Axis(a) => match axis_code_spec(a) {
            Some(c) => Some(EvCode { kind: EV_ABS, code: c }),
            None => None,
        },
    }
}

/// The logical element that the common layout gives to a platform code.
pub open spec fn native_element_spec(c: EvCode) -> Option<AxisOrBtn> {
    if c.kind == EV_KEY {
        if c.code == 0x130 {
            Some(AxisOrBtn::Btn(Button::South))
        } else if c.code == 0x131 {
            Some(AxisOrBtn::Btn(Button::East))
        } else if c.code == 0x132 {
            Some(AxisOrBtn::Btn(Button::C))
        } else if c.code == 0x133 {
            Some(AxisOrBtn::Btn(Button::North))
        } else if c.code == 0x134 {
            Some(AxisOrBtn::Btn(Button::West))
        } else if c.code == 0x135 {
            Some(AxisOrBtn::Btn(Button::Z))
        } else if c.code == 0x136 {
            Some(AxisOrBtn::Btn(Button::LeftTrigger))
        } else if c.code == 0x137 {
            Some(AxisOrBtn::Btn(Button::RightTrigger))
        } else if c.code == 0x138 {
            Some(AxisOrBtn::Btn(Button::LeftTrigger2))
        } else if c.code == 0x139 {
            Some(AxisOrBtn::Btn(Button::RightTrigger2))
        } else if c.code == 0x13a {
            Some(AxisOrBtn::Btn(Button::Select))
        } else if c.code == 0x13b {
            Some(AxisOrBtn::Btn(Button::Start))
        } else if c.code == 0x13c {
            Some(AxisOrBtn::Btn(Button::Mode))
        } else if c.code == 0x13d {
            Some(AxisOrBtn::Btn(Button::LeftThumb))
        } else if c.code == 0x13e {
            Some(AxisOrBtn::Btn(Button::RightThumb))
        } else if c.code == 0x220 {
            Some(AxisOrBtn::Btn(Button::DPadUp))
        } else if c.code == 0x221 {
            Some(AxisOrBtn::Btn(Button::DPadDown))
        } else if c.code == 0x222 {
            Some(AxisOrBtn::Btn(Button::DPadLeft))
        } else if c.code == 0x223 {
            Some(AxisOrBtn::Btn(Button::DPadRight))
        } else {
            None
        }
    } else if c.kind == EV_ABS {
        if c.code == 0x00 {
            Some(AxisOrBtn::Axis(Axis::LeftStickX))
        } else if c.code == 0x01 {
            Some(AxisOrBtn::Axis(Axis::LeftStickY))
        } else if c.code == 0x02 {
            Some(AxisOrBtn::Axis(Axis::LeftZ))
        } else if c.code == 0x03 {
            Some(AxisOrBtn::Axis(Axis::RightStickX))
        } else if c.code == 0x04 {
            Some(AxisOrBtn::Axis(Axis::RightStickY))
        } else if c.code == 0x05 {
            Some(AxisOrBtn::Axis(Axis::RightZ))
        } else if c.code == 0x10 {
            Some(AxisOrBtn::Axis(Axis::DPadX))
        } else if c.code == 0x11 {
            Some(AxisOrBtn::Axis(Axis::DPadY))
        } else {
            None
        }
    } else {
        None
    }
}

/// The common layout is a bijection between the codes it names and the known elements.
pub proof fn lemma_native_round_trip(c: EvCode, e: AxisOrBtn)
    ensures
        native_element_spec(c) == Some(e) ==> native_code_spec(e) == Some(c),
        native_code_spec(e) == Some(c) ==> native_element_spec(c) == Some(e),
        native_element_spec(c) == Some(e) ==> !e.is_unknown_spec(),
{
}

/// Platform code that the common layout gives to `b`; `None` for `Button::Unknown`.
pub fn button_nec(b: Button) -> (r: Option<EvCode>)
    ensures
        r == native_code_spec(AxisOrBtn::Btn(b)),
{
    let c: u16 = match b {
        Button::South => 0x130,
        Button::East => 0x131,
        Button::C => 0x132,
        Button::North => 0x133,
        Button::West => 0x134,
        Button::Z => 0x135,
        Button::LeftTrigger => 0x136,
        Button::RightTrigger => 0x137,
        Button::LeftTrigger2 => 0x138,
        Button::RightTrigger2 => 0x139,
        Button::Select => 0x13a,
        Button::Start => 0x13b,
        Button::Mode => 0x13c,
        Button::LeftThumb => 0x13d,
        Button::RightThumb => 0x13e,
        Button::DPadUp => 0x220,
        Button::DPadDown => 0x221,
        Button::DPadLeft => 0x222,
        Button::DPadRight => 0x223,
        Button::Unknown => {
            return None;
        },
    };
    Some(EvCode::new(EV_KEY, c))
}

/// Platform code that the common layout gives to `a`; `None` for `Axis::Unknown`.
pub fn axis_nec(a: Axis) -> (r: Option<EvCode>)
    ensures
        r == native_code_spec(AxisOrBtn::Axis(a)),
{
    let c: u16 = match a {
        Axis::LeftStickX => 0x00,
        Axis::LeftStickY => 0x01,
        Axis::LeftZ => 0x02,
        Axis::RightStickX => 0x03,
        Axis::RightStickY => 0x04,
        Axis::RightZ => 0x05,
        Axis::DPadX => 0x10,
        Axis::DPadY => 0x11,
        Axis::Unknown => {
            return None;
        },
    };
    Some(EvCode::new(EV_ABS, c))
}

/// Platform code that the common layout gives to `e`.
pub fn element_nec(e: AxisOrBtn) -> (r: Option<EvCode>)
    ensures
        r == native_code_spec(e),
{
    match e {
        AxisOrBtn::Btn(b) => button_nec(b),
        AxisOrBtn::Axis(a) => axis_nec(a),
    }
}

/// Logical element that the common layout gives to `c`.
pub fn native_element(c: EvCode) -> (r: Option<AxisOrBtn>)
    ensures
        r == native_element_spec(c),
{
    if c.kind == EV_KEY {
        let b = match c.code {
            0x130 => Button::South,
            0x131 => Button::East,
            0x132 => Button::C,
            0x133 => Button::North,
            0x134 => Button::West,
            0x135 => Button::Z,
            0x136 => Button::LeftTrigger,
            0x137 => Button::RightTrigger,
            0x138 => Button::LeftTrigger2,
            0x139 => Button::RightTrigger2,
            0x13a => Button::Select,
            0x13b => Button::Start,
            0x13c => Button::Mode,
            0x13d => Button::LeftThumb,
            0x13e => Button::RightThumb,
            0x220 => Button::DPadUp,
            0x221 => Button::DPadDown,
            0x222 => Button::DPadLeft,
            0x223 => Button::DPadRight,
            _ => {
                return None;
            },
        };
        Some(AxisOrBtn::Btn(b))
    } else if c.kind == EV_ABS {
        let a = match c.code {
            0x00 => Axis::LeftStickX,
            0x01 => Axis::LeftStickY,
            0x02 => Axis::LeftZ,
            0x03 => Axis::RightStickX,
            0x04 => Axis::RightStickY,
            0x05 => Axis::RightZ,
            0x10 => Axis::DPadX,
            0x11 => Axis::DPadY,
            _ => {
                return None;
            },
        };
        Some(AxisOrBtn::Axis(a))
    } else {
        None
    }
}

} // verus!
