use vstd::prelude::*;
use crate::value::{Ratio, RATIO_BOUND};

verus! {

#[verifier::external_type_specification]
#[verifier::external_body]
pub struct ExSystemTime(std::time::SystemTime);

/// Relies on `SystemTime::now`: the current wall-clock time; nothing is promised of its value.
pub assume_specification[ std::time::SystemTime::now ]() -> std::time::SystemTime;

/// True if the Y axis of sticks commonly points downwards on the event source.
pub const IS_Y_AXIS_REVERSED: bool = true;

/// Platform representation of one axis or button: an event kind and a code within it.
#[derive(Copy, Clone, Debug, PartialEq, Eq, Structural, PartialOrd, Ord, Hash)]
pub struct EvCode {
    /// Event kind of the platform (key or absolute axis).
    pub kind: u16,
    /// Code within the kind.
    pub code: u16,
}

impl EvCode {
    /// The integer that identifies this element: the kind in the upper 16 bits.
    pub open spec fn id(self) -> nat {
        self.kind as nat * 0x1_0000 + self.code as nat
    }

    pub fn new(kind: u16, code: u16) -> (r: EvCode)
        ensures
            r == (EvCode { kind, code }),
    {
        EvCode { kind, code }
    }

    /// Builds the code whose integer form is `v`.
    pub fn from_u32(v: u32) -> (r: EvCode)
        ensures
            r.id() == v,
    {
        EvCode { kind: (v / 0x1_0000) as u16, code: (v % 0x1_0000) as u16 }
    }

    /// The integer form of this code.
    pub fn into_u32(self) -> (r: u32)
        ensures
            r == self.id(),
    {
        (self.kind as u32) * 0x1_0000 + self.code as u32
    }
}

/// Event reported by the device backend.
#[derive(Debug, Clone, Copy, PartialEq)]
pub enum EventType {
    ButtonPressed(EvCode),
    ButtonReleased(EvCode),
    AxisValueChanged(i32, EvCode),
    Connected,
    Disconnected,
}

/// Event of the device backend together with the device id and the time it was seen.
#[derive(Copy, Clone, Debug)]
pub struct Event {
    /// Id of gamepad.
    pub id: usize,
    /// Event's data.
    pub event: EventType,
    /// Time when event was emitted.
    pub time: std::time::SystemTime,
}

impl Event {
    /// Creates new event with current time.
    pub fn new(id: usize, event: EventType) -> (r: Event)
        ensures
            r.id == id,
            r.event == event,
    {
        Event { id, event, time: std::time::SystemTime::now() }
    }
}

/// Expected raw range of an axis and the raw width of its dead zone.
#[derive(Copy, Clone, Debug)]
pub struct AxisInfo {
    pub min: i32,
    pub max: i32,
    pub deadzone: u32,
}

/// The dead zone as a fraction of the normalized range `[-1, 1]`: `deadzone / (max - min) * 2`,
/// or zero for an empty range.
pub open spec fn deadzone_spec(info: AxisInfo) -> Ratio {
    let range = info.max - info.min;
    if range == 0 {
        Ratio { num: 0, den: 1 }
    } else if range > 0 {
        Ratio { num: (2 * info.deadzone) as i64, den: range as i64 }
    } else {
        Ratio { num: (-2 * info.deadzone) as i64, den: (-range) as i64 }
    }
}

impl AxisInfo {
    /// Dead zone as a fraction of the normalized range.
    pub fn deadzone(&self) -> (r: Ratio)
        ensures
            r == deadzone_spec(*self),
            r.wf(),
    {
        let range: i64 = self.max as i64 - self.min as i64;
        let dz: i64 = 2 * (self.deadzone as i64);
        if range == 0 {
            Ratio::zero()
        } else if range > 0 {
            Ratio::new(dz, range)
        } else {
            Ratio::new(-dz, -range)
        }
    }
}

/// State of device's power supply; battery level is an integer between 0 and 100.
#[derive(Debug, Copy, Clone, PartialEq, Eq, Structural)]
pub enum PowerInfo {
    /// Failed to determine power status.
    Unknown,
    /// Device doesn't have battery.
    Wired,
    /// Device is running on the battery.
    Discharging(u8),
    /// Battery is charging.
    Charging(u8),
    /// Battery is charged.
    Charged,
}

/// Kind of the event that starts playing a force-feedback effect.
pub const EV_FF: u16 = 0x15;

/// Force-feedback effect type of a two-motor rumble.
pub const FF_RUMBLE: u16 = 0x50;

/// One rumble effect upload: the effect slot, the two motor magnitudes and how long it plays.
#[derive(Copy, Clone, Debug, PartialEq, Eq, Structural)]
pub struct RumbleEffect {
    pub effect_type: u16,
    pub id: i16,
    pub strong: u16,
    pub weak: u16,
    pub delay_ms: u16,
    pub length_ms: u16,
}

/// The event written to the device to start playing an uploaded effect.
#[derive(Copy, Clone, Debug, PartialEq, Eq, Structural)]
pub struct PlayEvent {
    pub kind: u16,
    pub code: u16,
    pub value: i32,
}

/// Length in milliseconds of a duration given in milliseconds, saturated to `u16`.
pub open spec fn saturate_ms(ms: u64) -> u16 {
    if ms > 0xffff {
        0xffff
    } else {
        ms as u16
    }
}

/// Rumble upload for the effect slot `id`.
pub fn rumble_effect(id: i16, strong: u16, weak: u16, length_ms: u64) -> (r: RumbleEffect)
    ensures
        r == (RumbleEffect {
            effect_type: FF_RUMBLE,
            id,
            strong,
            weak,
            delay_ms: 0,
            length_ms: saturate_ms(length_ms),
        }),
{
    let length: u16 = if length_ms > 0xffff {
        0xffff
    } else {
        length_ms as u16
    };
    RumbleEffect { effect_type: FF_RUMBLE, id, strong, weak, delay_ms: 0, length_ms: length }
}

/// Event that starts playing the effect uploaded to slot `id`.
pub fn play_event(id: i16) -> (r: PlayEvent)
    ensures
        r == (PlayEvent { kind: EV_FF, code: id as u16, value: 1 }),
{
    PlayEvent { kind: EV_FF, code: id as u16, value: 1 }
}

/// Force-feedback control of one gamepad: the effect slot it owns and the rumble last asked for.
#[derive(Debug)]
pub struct FfDevice {
    effect: i16,
    pending: Option<RumbleEffect>,
}

impl FfDevice {
    pub closed spec fn effect_slot(&self) -> i16 {
        self.effect
    }

    /// The upload that the device's writer has still to perform.
    pub closed spec fn pending_spec(&self) -> Option<RumbleEffect> {
        self.pending
    }

    /// Control of the effect slot `effect`, with nothing to upload yet.
    pub fn new(effect: i16) -> (r: FfDevice)
        ensures
            r.effect_slot() == effect,
            r.pending_spec() is None,
    {
        FfDevice { effect, pending: None }
    }

    /// Sets magnitude for strong and weak ff motors, to play for at least `min_duration_ms`.
    pub fn set_ff_state(&mut self, strong: u16, weak: u16, min_duration_ms: u64)
        ensures
            final(self).effect_slot() == old(self).effect_slot(),
            final(self).pending_spec() == Some(
                RumbleEffect {
                    effect_type: FF_RUMBLE,
                    id: old(self).effect_slot(),
                    strong,
                    weak,
                    delay_ms: 0,
                    length_ms: saturate_ms(min_duration_ms),
                },
            ),
    {
        self.pending = Some(rumble_effect(self.effect, strong, weak, min_duration_ms));
    }

    /// Hands out the upload asked for last, if any, and clears it.
    pub fn take_pending(&mut self) -> (r: Option<RumbleEffect>)
        ensures
            r == old(self).pending_spec(),
            final(self).pending_spec() is None,
            final(self).effect_slot() == old(self).effect_slot(),
    {
        let r = self.pending;
        self.pending = None;
        r
    }
}

} // verus!
