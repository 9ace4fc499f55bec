//! Game-controller input layer: raw device events become normalized, mapping-resolved
//! events and a cached per-device state; force-feedback effects are combined per tick.

mod value;
mod raw;
mod ev;
pub mod native;
mod mapping;
mod state;
pub mod filter;
mod sdl;
mod gamepad;
pub mod pipeline;
mod gilrs;
mod ff;

pub use value::Ratio;
pub use raw::{
    play_event, rumble_effect, AxisInfo, EvCode, FfDevice, PlayEvent, PowerInfo, RumbleEffect,
    EV_FF, FF_RUMBLE, IS_Y_AXIS_REVERSED,
};
pub use raw::Event as RawEvent;
pub use raw::EventType as RawEventType;
pub use ev::{Axis, AxisOrBtn, Button, Code, Event, EventType};
pub use mapping::{Mapping, MappingError};
pub use state::{AxisData, ButtonData, GamepadState};
pub use filter::{axis_value, btn_value};
pub use sdl::{parse_sdl_mapping, MappingDb};
pub use gamepad::{DeviceInfo, FfError, Gamepad, MappingSource};
pub use gilrs::{Error, Gilrs, GilrsBuilder, MAX_COUNTER};
pub use ff::{
    rumble_for_tick, Effect, FfScheduler, Magnitude, Message, Position, MAX_MAGNITUDE,
    TICK_DURATION,
};
