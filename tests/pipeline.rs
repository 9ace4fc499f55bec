use gilrs::{
    Axis, AxisInfo, Button, Code, DeviceInfo, Error, EvCode, Event, EventType, Gilrs,
    GilrsBuilder, Message, PowerInfo, RawEvent, RawEventType, Ratio,
};
use std::time::SystemTime;

const GUID: [u8; 16] = [0x03, 0, 0, 0, 0x5e, 0x04, 0, 0, 0x8e, 0x02, 0, 0, 0x14, 0x01, 0, 0];

fn device(buttons: Vec<EvCode>, axes: Vec<(EvCode, AxisInfo)>, ff: bool) -> DeviceInfo {
    DeviceInfo {
        name: String::from("Test pad"),
        uuid: GUID,
        buttons,
        axes: axes.iter().map(|a| a.0).collect(),
        axis_info: axes,
        ff_supported: ff,
        power_info: PowerInfo::Wired,
    }
}

fn raw(id: usize, event: RawEventType) -> RawEvent {
    RawEvent { id, event, time: SystemTime::UNIX_EPOCH }
}

/// Feeds raw events the way a frame loop does and collects everything `next_event` returns.
fn run(g: &mut Gilrs, dev: &DeviceInfo, events: Vec<RawEventType>) -> Vec<Event> {
    let mut out = Vec::new();
    for e in events {
        g.handle_raw_event(raw(0, e), dev.clone());
        while let Some(ev) = g.next_event() {
            out.push(ev);
        }
    }
    out
}

fn value(r: Ratio) -> f64 {
    r.num as f64 / r.den as f64
}

#[test]
fn button_press_resolved_through_mapping() {
    let code = EvCode::from_u32(5);
    let dev = device(vec![code], vec![], false);
    let mut g = GilrsBuilder::new()
        .add_mappings(b"030000005e0400008e02000014010000,Pad,a:b0,")
        .build()
        .ok()
        .unwrap();
    let evs = run(&mut g, &dev, vec![RawEventType::Connected, RawEventType::ButtonPressed(code)]);
    assert_eq!(evs.len(), 3);
    assert!(matches!(evs[0].event, EventType::Connected));
    assert!(matches!(evs[1].event, EventType::ButtonPressed(Button::South, c) if c == Code(code)));
    match evs[2].event {
        EventType::ButtonChanged(Button::South, v, c) => {
            assert_eq!(c, Code(code));
            assert_eq!(value(v), 1.0);
        }
        _ => panic!("expected a value change"),
    }
    let pad = g.gamepad(0).unwrap();
    assert_eq!(pad.name(), "Pad");
    assert!(pad.is_pressed(Button::South));
    assert_eq!(pad.button_data(Button::South).unwrap().counter(), g.counter());
}

#[test]
fn unmapped_button_is_unknown() {
    let code = EvCode::new(1, 0x2c0);
    let dev = device(vec![code], vec![], false);
    let mut g = Gilrs::new().ok().unwrap();
    let evs = run(&mut g, &dev, vec![RawEventType::Connected, RawEventType::ButtonReleased(code)]);
    assert!(matches!(evs[1].event, EventType::ButtonReleased(Button::Unknown, _)));
    assert!(matches!(evs[2].event, EventType::ButtonChanged(Button::Unknown, v, _) if v.num == 0));
}

#[test]
fn axis_to_button_hysteresis() {
    let code = EvCode::new(3, 0x0a);
    let dev = device(vec![], vec![(code, AxisInfo { min: 0, max: 100, deadzone: 0 })], false);
    let mut g = GilrsBuilder::new()
        .add_mappings(b"030000005e0400008e02000014010000,Pad,lefttrigger:a0,")
        .build()
        .ok()
        .unwrap();
    run(&mut g, &dev, vec![RawEventType::Connected]);
    let mut pressed = Vec::new();
    let mut released = Vec::new();
    for v in [0, 50, 80, 70, 60] {
        let evs = run(&mut g, &dev, vec![RawEventType::AxisValueChanged(v, code)]);
        for e in &evs {
            match e.event {
                EventType::ButtonPressed(Button::LeftTrigger2, _) => pressed.push(v),
                EventType::ButtonReleased(Button::LeftTrigger2, _) => released.push(v),
                _ => {}
            }
        }
        let presses = evs.iter().filter(|e| matches!(e.event, EventType::ButtonPressed(..))).count();
        let releases = evs.iter().filter(|e| matches!(e.event, EventType::ButtonReleased(..))).count();
        assert!(presses + releases <= 1);
    }
    assert_eq!(pressed, vec![80]);
    assert_eq!(released, vec![60]);
}

#[test]
fn unmapped_axis_normalized_and_deadzoned() {
    let code = EvCode::new(3, 0x30);
    let dev = device(vec![], vec![(code, AxisInfo { min: 0, max: 255, deadzone: 8 })], false);
    let mut g = Gilrs::new().ok().unwrap();
    run(&mut g, &dev, vec![RawEventType::Connected]);
    let evs = run(&mut g, &dev, vec![RawEventType::AxisValueChanged(200, code)]);
    assert_eq!(evs.len(), 1);
    match evs[0].event {
        EventType::AxisChanged(Axis::Unknown, v, _) => assert!((value(v) - 0.57).abs() < 0.01),
        _ => panic!("expected an axis change"),
    }
    let near_center = run(&mut g, &dev, vec![RawEventType::AxisValueChanged(129, code)]);
    assert_eq!(near_center.len(), 1);
    assert!(matches!(near_center[0].event, EventType::AxisChanged(Axis::Unknown, v, _) if v.num == 0));
    let again = run(&mut g, &dev, vec![RawEventType::AxisValueChanged(127, code)]);
    assert_eq!(again.len(), 0);
    assert_eq!(value(g.gamepad(0).unwrap().state().value(Code(code))), 0.0);
    let low = run(&mut g, &dev, vec![RawEventType::AxisValueChanged(4, code)]);
    assert!(matches!(low[0].event, EventType::AxisChanged(_, v, _) if (v.num, v.den) == (-247, 255)));
}

#[test]
fn jitter_is_suppressed() {
    let code = EvCode::new(3, 0x00);
    let dev = device(vec![], vec![(code, AxisInfo { min: 0, max: 255, deadzone: 0 })], false);
    let mut g = Gilrs::new().ok().unwrap();
    let evs = run(
        &mut g,
        &dev,
        vec![
            RawEventType::Connected,
            RawEventType::AxisValueChanged(200, code),
            RawEventType::AxisValueChanged(201, code),
            RawEventType::AxisValueChanged(230, code),
        ],
    );
    assert_eq!(evs.len(), 3);
    assert!(matches!(evs[1].event, EventType::AxisChanged(Axis::LeftStickX, v, _) if (v.num, v.den) == (145, 255)));
    assert!(matches!(evs[2].event, EventType::AxisChanged(Axis::LeftStickX, v, _) if (v.num, v.den) == (205, 255)));
}

#[test]
fn filters_can_be_switched_off() {
    let code = EvCode::new(3, 0x00);
    let dev = device(vec![], vec![(code, AxisInfo { min: 0, max: 255, deadzone: 0 })], false);
    let mut g = GilrsBuilder::new().with_default_filters(false).build().ok().unwrap();
    let evs = run(
        &mut g,
        &dev,
        vec![
            RawEventType::Connected,
            RawEventType::AxisValueChanged(200, code),
            RawEventType::AxisValueChanged(201, code),
        ],
    );
    assert_eq!(evs.len(), 3);
}

#[test]
fn dpad_axes_become_buttons() {
    let x = EvCode::new(3, 0x10);
    let dev = device(vec![], vec![(x, AxisInfo { min: -1, max: 1, deadzone: 0 })], false);
    let mut g = Gilrs::new().ok().unwrap();
    run(&mut g, &dev, vec![RawEventType::Connected]);
    let right = run(&mut g, &dev, vec![RawEventType::AxisValueChanged(1, x)]);
    assert!(matches!(right[0].event, EventType::ButtonPressed(Button::DPadRight, c) if c == Code(EvCode::new(1, 0x223))));
    assert!(g.gamepad(0).unwrap().is_pressed(Button::DPadRight));
    let center = run(&mut g, &dev, vec![RawEventType::AxisValueChanged(0, x)]);
    assert!(matches!(center[0].event, EventType::ButtonReleased(Button::DPadRight, _)));
    let nothing = run(&mut g, &dev, vec![RawEventType::AxisValueChanged(0, x)]);
    assert_eq!(nothing.len(), 0);
}

#[test]
fn connect_and_disconnect_drive_force_feedback() {
    let dev = device(vec![], vec![], true);
    let mut g = Gilrs::new().ok().unwrap();
    let evs = run(&mut g, &dev, vec![RawEventType::Connected, RawEventType::Disconnected]);
    assert!(matches!(evs[1].event, EventType::Disconnected));
    assert_eq!(g.take_messages(), vec![Message::Open { id: 0 }, Message::Close { id: 0 }]);
    let pad = g.gamepad(0).unwrap();
    assert!(!pad.is_connected());
    assert_eq!(pad.name(), "Test pad");
    assert!(g.connected_gamepad(0).is_none());
    assert!(g.gamepads().is_empty());
}

#[test]
fn events_of_unknown_gamepads_are_ignored() {
    let code = EvCode::new(1, 0x130);
    let dev = device(vec![code], vec![], false);
    let mut g = Gilrs::new().ok().unwrap();
    let evs = run(&mut g, &dev, vec![RawEventType::ButtonPressed(code)]);
    assert!(evs.is_empty());
    assert!(g.gamepad(0).is_none());
}

#[test]
fn update_twice_equals_once() {
    let code = EvCode::new(1, 0x130);
    let dev = device(vec![code], vec![], false);
    let mut g = GilrsBuilder::new().set_update_state(false).build().ok().unwrap();
    run(&mut g, &dev, vec![RawEventType::Connected]);
    g.inc();
    let ev = Event::new(0, EventType::ButtonPressed(Button::South, Code(code)), SystemTime::UNIX_EPOCH);
    g.update(&ev);
    let once = g.gamepad(0).unwrap().button_data(Button::South).unwrap();
    g.update(&ev);
    let twice = g.gamepad(0).unwrap().button_data(Button::South).unwrap();
    assert_eq!(once.is_pressed(), twice.is_pressed());
    assert_eq!(once.counter(), twice.counter());
    assert_eq!(once.counter(), 1);
    assert_eq!(once.value().num, twice.value().num);
    assert_eq!(once.timestamp(), twice.timestamp());
}

#[test]
fn inserted_event_comes_out() {
    let mut g = Gilrs::new().ok().unwrap();
    g.insert_event(Event::new(3, EventType::Connected, SystemTime::UNIX_EPOCH));
    assert!(g.has_pending());
    let e = g.next_event().unwrap();
    assert_eq!(e.id, 3);
    assert!(g.next_event().is_none());
}

#[test]
fn invalid_thresholds_are_refused() {
    let r = GilrsBuilder::new().set_axis_to_btn(Ratio::new(6, 10), Ratio::new(65, 100)).build();
    assert!(matches!(r, Err(Error::InvalidAxisToBtn)));
    let r = GilrsBuilder::new().set_axis_to_btn(Ratio::new(11, 10), Ratio::new(1, 2)).build();
    assert!(matches!(r, Err(Error::InvalidAxisToBtn)));
    let r = GilrsBuilder::new().set_axis_to_btn(Ratio::new(9, 10), Ratio::new(1, 2)).build();
    assert!(r.is_ok());
}

#[test]
fn listener_position_needs_connection_and_support() {
    let mut g = Gilrs::new().ok().unwrap();
    run(&mut g, &device(vec![], vec![], false), vec![RawEventType::Connected]);
    let p = gilrs::Position { x: 1, y: 2, z: 3 };
    assert_eq!(
        g.gamepad(0).unwrap().set_listener_position(p),
        Err(gilrs::FfError::FfNotSupported(0))
    );
    run(&mut g, &device(vec![], vec![], true), vec![RawEventType::Connected]);
    assert_eq!(
        g.gamepad(0).unwrap().set_listener_position(p),
        Ok(Message::SetListenerPosition { id: 0, position: p })
    );
}

#[test]
fn builder_settings_and_slot_queries() {
    let b = GilrsBuilder::new().add_env_mappings(false).add_included_mappings(false);
    assert!(!b.env_mappings_wanted());
    assert!(!b.included_mappings_wanted());
    let mut g = b.add_mappings(b"030000005e0400008e02000014010000,Pad,a:b0,").build().ok().unwrap();
    let code = EvCode::new(1, 0x130);
    run(&mut g, &device(vec![code], vec![], true), vec![RawEventType::Connected]);
    let pad = g.gamepad(0).unwrap();
    assert!(pad.is_ff_supported());
    assert_eq!(pad.mapping_source(), gilrs::MappingSource::SdlMappings);
    assert_eq!(pad.map_name(), Some("Pad"));
    assert_eq!(pad.os_name(), "Test pad");
    assert_eq!(pad.uuid(), GUID);
    assert_eq!(pad.power_info(), PowerInfo::Wired);
    assert_eq!(pad.button_code(Button::South), Some(Code(code)));
    assert_eq!(pad.axis_code(Axis::LeftStickX), None);
    assert_eq!(pad.id(), 0);
    assert_eq!(g.gamepads(), vec![0]);
}

#[test]
fn default_mapping_without_database_line() {
    let mut g = GilrsBuilder::new().add_included_mappings(false).build().ok().unwrap();
    let x = EvCode::new(3, 0x00);
    run(&mut g, &device(vec![], vec![(x, AxisInfo { min: 0, max: 10, deadzone: 1 })], false), vec![RawEventType::Connected]);
    let pad = g.gamepad(0).unwrap();
    assert_eq!(pad.mapping_source(), gilrs::MappingSource::Driver);
    assert_eq!(pad.map_name(), None);
    assert_eq!(pad.name(), "Test pad");
    let dz = pad.deadzone(Code(x)).unwrap();
    assert_eq!((dz.num, dz.den), (2, 10));
    assert!(pad.deadzone(Code(EvCode::new(3, 0x05))).is_none());
    assert_eq!(value(pad.value(Axis::LeftStickX)), 0.0);
    assert!(pad.axis_data(Axis::LeftStickX).is_none());
}
