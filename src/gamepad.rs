use vstd::prelude::*;
use crate::ev::{Axis, AxisOrBtn, Button, Code, Event};
use crate::ff::{Message, Position};
use crate::mapping::Mapping;
use crate::native::{native_code_spec, button_nec};
use crate::raw::{deadzone_spec, AxisInfo, EvCode, PowerInfo};
use crate::state::{apply_spec, AxisData, ButtonData, GamepadState, StateView};
use crate::value::Ratio;

verus! {

/// What the device backend reports about one gamepad.
#[derive(Clone, Debug)]
pub struct DeviceInfo {
    /// Name reported by the operating system.
    pub name: String,
    /// UUID of the gamepad model, as SDL computes it.
    pub uuid: [u8; 16],
    /// Codes that may appear in button events.
    pub buttons: Vec<EvCode>,
    /// Codes that may appear in axis events.
    pub axes: Vec<EvCode>,
    /// Range and dead zone of each axis.
    pub axis_info: Vec<(EvCode, AxisInfo)>,
    /// Whether the device can play force-feedback effects.
    pub ff_supported: bool,
    /// State of the device's power supply.
    pub power_info: PowerInfo,
}

/// Range and dead zone that the first entry for code `c` gives.
pub open spec fn axis_info_spec(s: Seq<(EvCode, AxisInfo)>, c: EvCode) -> Option<AxisInfo>
    decreases s.len(),
{
    if s.len() == 0 {
        None
    } else if s[0].0 == c {
        Some(s[0].1)
    } else {
        axis_info_spec(s.drop_first(), c)
    }
}

/// Range and dead zone of axis `c`, if the device reported one.
pub fn find_axis_info(s: &Vec<(EvCode, AxisInfo)>, c: EvCode) -> (r: Option<AxisInfo>)
    ensures
        r == axis_info_spec(s@, c),
{
    let n = s.len();
    let mut i: usize = 0;
    assert(s@.subrange(0, n as int) =~= s@);
    while i < n
        invariant
            n == s@.len(),
            0 <= i <= n,
            axis_info_spec(s@, c) == axis_info_spec(s@.subrange(i as int, n as int), c),
        decreases n - i,
    {
        assert(s@.subrange(i as int, n as int).drop_first() =~= s@.subrange(i + 1, n as int));
        if s[i].0 == c {
            return Some(s[i].1);
        }
        i = i + 1;
    }
    None
}

/// Source of gamepad mappings.
#[derive(Copy, Clone, Debug, PartialEq, Eq, Structural)]
pub enum MappingSource {
    /// Gamepad uses SDL mappings.
    SdlMappings,
    /// Gamepad does not use any mappings but driver should provide unified controller layout.
    Driver,
    /// Gamepad does not use any mappings and most gamepad events will probably be
    /// `Button::Unknown` or `Axis::Unknown`.
    Unmapped,
}

/// Error of a force-feedback request.
#[derive(Copy, Clone, Debug, PartialEq, Eq, Structural)]
pub enum FfError {
    /// The gamepad with this id is not connected.
    Disconnected(usize),
    /// The gamepad with this id cannot play force-feedback effects.
    FfNotSupported(usize),
}

/// One device slot: the backend's description, the mapping resolved for it and the cached state.
#[derive(Debug)]
pub struct Gamepad {
    state: GamepadState,
    mapping: Mapping,
    id: usize,
    info: DeviceInfo,
    connected: bool,
    dpad_from_axes: bool,
}

/// Whether `m` maps none of the `buttons` to a D-pad button.
pub open spec fn no_dpad_buttons(m: Mapping, buttons: Seq<EvCode>) -> bool {
    forall|i: int|
        0 <= i < buttons.len() ==> !(m.map_spec(#[trigger] buttons[i]) matches Some(
            AxisOrBtn::Btn(b),
        ) && is_dpad_button(b))
}

pub open spec fn is_dpad_button(b: Button) -> bool {
    b == Button::DPadUp || b == Button::DPadDown || b == Button::DPadLeft || b
        == Button::DPadRight
}

impl Gamepad {
    pub closed spec fn state_view(&self) -> StateView {
        self.state@
    }

    pub closed spec fn mapping_spec(&self) -> Mapping {
        self.mapping
    }

    pub closed spec fn id_spec(&self) -> usize {
        self.id
    }

    pub closed spec fn info_spec(&self) -> DeviceInfo {
        self.info
    }

    pub closed spec fn connected_spec(&self) -> bool {
        self.connected
    }

    /// The device reports its D-pad as two axes only, so D-pad buttons are synthesized from them.
    pub closed spec fn dpad_from_axes_spec(&self) -> bool {
        self.dpad_from_axes
    }

    pub open spec fn wf(&self) -> bool {
        &&& self.mapping_spec().wf()
        &&& self.dpad_from_axes_spec() == no_dpad_buttons(
            self.mapping_spec(),
            self.info_spec().buttons@,
        )
    }

    /// Code of button `b`: the mapping's, else the common layout's.
    pub open spec fn button_code_or_native(&self, b: Button) -> Option<EvCode> {
        match self.mapping_spec().map_rev_spec(AxisOrBtn::Btn(b)) {
            Some(c) => Some(c),
            None => native_code_spec(AxisOrBtn::Btn(b)),
        }
    }

    /// Fresh slot for a device that just connected, with an empty state.
    pub fn new(id: usize, info: DeviceInfo, mapping: Mapping) -> (r: Gamepad)
        requires
            mapping.wf(),
        ensures
            r.wf(),
            r.state_view().buttons == Map::<u32, ButtonData>::empty(),
            r.state_view().axes == Map::<u32, AxisData>::empty(),
            r.mapping_spec() == mapping,
            r.id_spec() == id,
            r.info_spec() == info,
            r.connected_spec(),
    {
        let n = info.buttons.len();
        let mut i: usize = 0;
        let mut found = false;
        while i < n
            invariant
                n == info.buttons@.len(),
                mapping.wf(),
                0 <= i <= n,
                !found <==> forall|k: int|
                    0 <= k < i ==> !(mapping.map_spec(#[trigger] info.buttons@[k]) matches Some(
                        AxisOrBtn::Btn(b),
                    ) && is_dpad_button(b)),
            decreases n - i,
        {
            match mapping.map(&info.buttons[i]) {
                Some(AxisOrBtn::Btn(b)) => {
                    match b {
                        Button::DPadUp | Button::DPadDown | Button::DPadLeft | Button::DPadRight => {
                            found = true;
                        },
                        _ => {},
                    }
                },
                _ => {},
            }
            i = i + 1;
        }
        Gamepad {
            state: GamepadState::new(),
            mapping,
            id,
            info,
            connected: true,
            dpad_from_axes: !found,
        }
    }

    /// What the backend reported about the device.
    pub fn info_ref(&self) -> (r: &DeviceInfo)
        ensures
            *r == self.info_spec(),
    {
        &self.info
    }

    /// Whether D-pad buttons are synthesized from the D-pad axes.
    pub fn dpad_from_axes(&self) -> (r: bool)
        ensures
            r == self.dpad_from_axes_spec(),
    {
        self.dpad_from_axes
    }

    /// Returns ID of gamepad.
    pub fn id(&self) -> (r: usize)
        ensures
            r == self.id_spec(),
    {
        self.id
    }

    /// Name of the SDL mapping in use, if the gamepad uses one.
    pub fn map_name(&self) -> (r: Option<&str>)
        ensures
            r matches Some(s) ==> !self.mapping_spec().is_default_spec() && s@
                == self.mapping_spec().name_spec(),
            r is None <==> self.mapping_spec().is_default_spec(),
    {
        if self.mapping.is_default() {
            None
        } else {
            Some(self.mapping.name())
        }
    }

    /// Name of the gamepad supplied by the OS.
    pub fn os_name(&self) -> (r: &str)
        ensures
            r@ == self.info_spec().name@,
    {
        self.info.name.as_str()
    }

    /// The mapping name if a mapping is in use, else the name supplied by the OS.
    pub fn name(&self) -> (r: &str)
        ensures
            r@ == if self.mapping_spec().is_default_spec() {
                self.info_spec().name@
            } else {
                self.mapping_spec().name_spec()
            },
    {
        match self.map_name() {
            Some(n) => n,
            None => self.os_name(),
        }
    }

    /// UUID of the gamepad model.
    pub fn uuid(&self) -> (r: [u8; 16])
        ensures
            r == self.info_spec().uuid,
    {
        self.info.uuid
    }

    /// Cached state of the gamepad.
    pub fn state(&self) -> (r: &GamepadState)
        ensures
            r@ == self.state_view(),
    {
        &self.state
    }

    /// Whether the gamepad is connected.
    pub fn is_connected(&self) -> (r: bool)
        ensures
            r == self.connected_spec(),
    {
        self.connected
    }

    /// State of the device's power supply.
    pub fn power_info(&self) -> (r: PowerInfo)
        ensures
            r == self.info_spec().power_info,
    {
        self.info.power_info
    }

    /// Whether the device can play force-feedback effects.
    pub fn is_ff_supported(&self) -> (r: bool)
        ensures
            r == self.info_spec().ff_supported,
    {
        self.info.ff_supported
    }

    /// Where the gamepad's layout comes from.
    pub fn mapping_source(&self) -> (r: MappingSource)
        ensures
            r == if self.mapping_spec().is_default_spec() {
                MappingSource::Driver
            } else {
                MappingSource::SdlMappings
            },
    {
        if self.mapping.is_default() {
            MappingSource::Driver
        } else {
            MappingSource::SdlMappings
        }
    }

    /// The mapping in use.
    pub fn mapping(&self) -> (r: &Mapping)
        ensures
            *r == self.mapping_spec(),
    {
        &self.mapping
    }

    /// Element mapped to code `ec`.
    pub fn axis_or_btn_name(&self, ec: Code) -> (r: Option<AxisOrBtn>)
        requires
            self.wf(),
        ensures
            r == self.mapping_spec().map_spec(ec.0),
    {
        self.mapping.map(&ec.0)
    }

    /// Code mapped to `btn`.
    pub fn button_code(&self, btn: Button) -> (r: Option<Code>)
        requires
            self.wf(),
        ensures
            r == match self.mapping_spec().map_rev_spec(AxisOrBtn::Btn(btn)) {
                Some(c) => Some(Code(c)),
                None => None::<Code>,
            },
    {
        match self.mapping.map_rev(&AxisOrBtn::Btn(btn)) {
            Some(c) => Some(Code(c)),
            None => None,
        }
    }

    /// Code mapped to `axis`.
    pub fn axis_code(&self, axis: Axis) -> (r: Option<Code>)
        requires
            self.wf(),
        ensures
            r == match self.mapping_spec().map_rev_spec(AxisOrBtn::Axis(axis)) {
                Some(c) => Some(Code(c)),
                None => None::<Code>,
            },
    {
        match self.mapping.map_rev(&AxisOrBtn::Axis(axis)) {
            Some(c) => Some(Code(c)),
            None => None,
        }
    }

    /// Whether `btn` is pressed in the cached state. Its code is the mapping's, or else the
    /// common layout's; a button that never changed is not pressed.
    pub fn is_pressed(&self, btn: Button) -> (r: bool)
        requires
            self.wf(),
            btn != Button::Unknown,
        ensures
            r == match self.button_code_or_native(btn) {
                Some(c) => self.state_view().buttons.contains_key(c.id() as u32)
                    && self.state_view().buttons[c.id() as u32].is_pressed,
                None => false,
            },
    {
        let code = match self.button_code(btn) {
            Some(c) => Some(c.0),
            None => button_nec(btn),
        };
        match code {
            Some(c) => self.state.is_pressed(Code(c)),
            None => false,
        }
    }

    /// Value of `axis` in the cached state; zero if it has no code or never changed.
    pub fn value(&self, axis: Axis) -> (r: Ratio)
        requires
            self.wf(),
            axis != Axis::Unknown,
        ensures
            r == match self.mapping_spec().map_rev_spec(AxisOrBtn::Axis(axis)) {
                Some(c) => if self.state_view().axes.contains_key(c.id() as u32) {
                    self.state_view().axes[c.id() as u32].value
                } else if self.state_view().buttons.contains_key(c.id() as u32) {
                    self.state_view().buttons[c.id() as u32].value
                } else {
                    Ratio { num: 0, den: 1 }
                },
                None => Ratio { num: 0, den: 1 },
            },
    {
        match self.axis_code(axis) {
            Some(c) => self.state.value(c),
            None => Ratio::zero(),
        }
    }

    /// Cached data of `btn`, if it has a code and changed.
    pub fn button_data(&self, btn: Button) -> (r: Option<ButtonData>)
        requires
            self.wf(),
        ensures
            r == match self.mapping_spec().map_rev_spec(AxisOrBtn::Btn(btn)) {
                Some(c) => if self.state_view().buttons.contains_key(c.id() as u32) {
                    Some(self.state_view().buttons[c.id() as u32])
                } else {
                    None::<ButtonData>
                },
                None => None::<ButtonData>,
            },
    {
        match self.button_code(btn) {
            Some(c) => self.state.button_data(c),
            None => None,
        }
    }

    /// Cached data of `axis`, if it has a code and changed.
    pub fn axis_data(&self, axis: Axis) -> (r: Option<AxisData>)
        requires
            self.wf(),
        ensures
            r == match self.mapping_spec().map_rev_spec(AxisOrBtn::Axis(axis)) {
                Some(c) => if self.state_view().axes.contains_key(c.id() as u32) {
                    Some(self.state_view().axes[c.id() as u32])
                } else {
                    None::<AxisData>
                },
                None => None::<AxisData>,
            },
    {
        match self.axis_code(axis) {
            Some(c) => self.state.axis_data(c),
            None => None,
        }
    }

    /// Dead zone of axis `axis` as a fraction of the normalized range, if the device has it.
    pub fn deadzone(&self, axis: Code) -> (r: Option<Ratio>)
        ensures
            r == match axis_info_spec(self.info_spec().axis_info@, axis.0) {
                Some(i) => Some(deadzone_spec(i)),
                None => None::<Ratio>,
            },
    {
        match find_axis_info(&self.info.axis_info, axis.0) {
            Some(i) => Some(i.deadzone()),
            None => None,
        }
    }

    /// Marks the gamepad as disconnected; everything else is kept for later queries.
    pub fn set_disconnected(&mut self)
        ensures
            !final(self).connected_spec(),
            final(self).state_view() == old(self).state_view(),
            final(self).mapping_spec() == old(self).mapping_spec(),
            final(self).id_spec() == old(self).id_spec(),
            final(self).info_spec() == old(self).info_spec(),
            final(self).dpad_from_axes_spec() == old(self).dpad_from_axes_spec(),
    {
        self.connected = false;
    }

    /// Applies `ev` to the cached state, recording `counter`.
    pub fn apply(&mut self, ev: &Event, counter: u64)
        ensures
            final(self).state_view() == apply_spec(old(self).state_view(), ev.event, counter, ev.time),
            final(self).connected_spec() == old(self).connected_spec(),
            final(self).mapping_spec() == old(self).mapping_spec(),
            final(self).id_spec() == old(self).id_spec(),
            final(self).info_spec() == old(self).info_spec(),
            final(self).dpad_from_axes_spec() == old(self).dpad_from_axes_spec(),
    {
        self.state.apply(ev, counter);
    }

    /// Message that moves the listener of positional effects on this gamepad to `position`.
    pub fn set_listener_position(&self, position: Position) -> (r: Result<Message, FfError>)
        ensures
            !self.connected_spec() ==> r == Err::<Message, FfError>(
                FfError::Disconnected(self.id_spec()),
            ),
            self.connected_spec() && !self.info_spec().ff_supported ==> r == Err::<
                Message,
                FfError,
            >(FfError::FfNotSupported(self.id_spec())),
            self.connected_spec() && self.info_spec().ff_supported ==> r == Ok::<
                Message,
                FfError,
            >(Message::SetListenerPosition { id: self.id_spec(), position }),
    {
        if !self.connected {
            Err(FfError::Disconnected(self.id))
        } else if !self.info.ff_supported {
            Err(FfError::FfNotSupported(self.id))
        } else {
            Ok(Message::SetListenerPosition { id: self.id, position })
        }
    }
}

} // verus!
