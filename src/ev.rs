use vstd::prelude::*;
use crate::raw::EvCode;
use crate::value::Ratio;

verus! {

/// Platform-defined identifier of one physical button or axis of a gamepad.
#[derive(Copy, Clone, Debug, PartialEq, Eq, Structural, PartialOrd, Ord, Hash)]
pub struct Code(pub EvCode);

impl Code {
    /// The integer form of the underlying platform code.
    pub fn into_u32(self) -> (r: u32)
        ensures
            r == self.0.id(),
    {
        self.0.into_u32()
    }
}

/// Logical button of the unified controller layout.
#[derive(Copy, Clone, Debug, PartialEq, Eq, Structural, Hash)]
pub enum Button {
    South,
    East,
    North,
    West,
    C,
    Z,
    LeftTrigger,
    LeftTrigger2,
    RightTrigger,
    RightTrigger2,
    Select,
    Start,
    Mode,
    LeftThumb,
    RightThumb,
    DPadUp,
    DPadDown,
    DPadLeft,
    DPadRight,
    Unknown,
}

/// Logical axis of the unified controller layout.
#[derive(Copy, Clone, Debug, PartialEq, Eq, Structural, Hash)]
pub enum Axis {
    LeftStickX,
    LeftStickY,
    LeftZ,
    RightStickX,
    RightStickY,
    RightZ,
    DPadX,
    DPadY,
    Unknown,
}

/// A logical element: either an axis or a button.
#[derive(Copy, Clone, Debug, PartialEq, Eq, Structural, Hash)]
pub enum AxisOrBtn {
    Axis(Axis),
    Btn(Button),
}

impl AxisOrBtn {
    /// The element is one of the reserved `Unknown` variants.
    pub open spec fn is_unknown_spec(self) -> bool {
        self == AxisOrBtn::Axis(Axis::Unknown) || self == AxisOrBtn::Btn(Button::Unknown)
    }

    pub fn is_unknown(&self) -> (r: bool)
        ensures
            r == self.is_unknown_spec(),
    {
        match self {
            AxisOrBtn::Axis(Axis::Unknown) => true,
            AxisOrBtn::Btn(Button::Unknown) => true,
            _ => false,
        }
    }
}

/// Semantic gamepad event.
#[derive(Copy, Clone, Debug)]
pub enum EventType {
    /// A button was pressed.
    ButtonPressed(Button, Code),
    /// A button press is repeated by the platform.
    ButtonRepeated(Button, Code),
    /// A button was released.
    ButtonReleased(Button, Code),
    /// Value of a button changed; the value lies in `[0, 1]`.
    ButtonChanged(Button, Ratio, Code),
    /// Value of an axis changed; the value lies in `[-1, 1]`.
    AxisChanged(Axis, Ratio, Code),
    /// A gamepad was connected.
    Connected,
    /// A gamepad was disconnected.
    Disconnected,
    /// Marks an event that a filter removed; never handed to callers.
    Dropped,
}

/// Semantic event with the id of its gamepad and the time it was observed.
#[derive(Copy, Clone, Debug)]
pub struct Event {
    /// Id of gamepad.
    pub id: usize,
    /// Event's data.
    pub event: EventType,
    /// Time when event was emitted.
    pub time: std::time::SystemTime,
}

impl Event {
    pub fn new(id: usize, event: EventType, time: std::time::SystemTime) -> (r: Event)
        ensures
            r == (Event { id, event, time }),
    {
        Event { id, event, time }
    }

    pub fn is_dropped(&self) -> (r: bool)
        ensures
            r == (self.event is Dropped),
    {
        match self.event {
            EventType::Dropped => true,
            _ => false,
        }
    }
}

} // verus!
