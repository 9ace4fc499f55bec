use gilrs::{
    play_event, rumble_for_tick, FfDevice, FfScheduler, Magnitude, Message, RawEvent,
    RawEventType, EV_FF, FF_RUMBLE,
};

fn play(effect: usize, device: usize, strong: u16, ticks: u32) -> Message {
    Message::Play { effect, device, magnitude: Magnitude { strong, weak: 0 }, ticks }
}

#[test]
fn concurrent_effects_saturate() {
    let mut s = FfScheduler::new();
    s.handle(Message::Open { id: 0 });
    s.handle(play(1, 0, 20000, 10));
    s.handle(play(2, 0, 50000, 10));
    let out = s.tick();
    assert_eq!(out, vec![(0, Magnitude { strong: 65535, weak: 0 })]);
}

#[test]
fn effects_add_below_the_limit() {
    let mut s = FfScheduler::new();
    s.handle(Message::Open { id: 4 });
    s.handle(Message::Play { effect: 1, device: 4, magnitude: Magnitude { strong: 100, weak: 7 }, ticks: 3 });
    s.handle(Message::Play { effect: 2, device: 4, magnitude: Magnitude { strong: 200, weak: 8 }, ticks: 3 });
    assert_eq!(s.tick(), vec![(4, Magnitude { strong: 300, weak: 15 })]);
}

#[test]
fn expired_effects_are_removed() {
    let mut s = FfScheduler::new();
    s.handle(Message::Open { id: 0 });
    s.handle(play(1, 0, 1000, 1));
    s.handle(play(2, 0, 5, 2));
    assert_eq!(s.tick(), vec![(0, Magnitude { strong: 1005, weak: 0 })]);
    assert_eq!(s.tick(), vec![(0, Magnitude { strong: 5, weak: 0 })]);
    assert_eq!(s.tick(), vec![(0, Magnitude { strong: 0, weak: 0 })]);
}

#[test]
fn closed_devices_get_nothing() {
    let mut s = FfScheduler::new();
    s.handle(Message::Open { id: 0 });
    s.handle(Message::Open { id: 1 });
    s.handle(play(1, 0, 1000, 5));
    s.handle(play(2, 1, 2000, 5));
    s.handle(Message::Close { id: 0 });
    s.handle(play(3, 0, 3000, 5));
    assert_eq!(s.tick(), vec![(1, Magnitude { strong: 2000, weak: 0 })]);
    assert!(!s.is_open(0));
}

#[test]
fn stop_and_replace_effects() {
    let mut s = FfScheduler::new();
    s.handle(Message::Open { id: 0 });
    s.handle(play(1, 0, 1000, 5));
    s.handle(play(1, 0, 10, 5));
    assert_eq!(s.combined(0), Magnitude { strong: 10, weak: 0 });
    s.handle(Message::Stop { effect: 1 });
    assert_eq!(s.combined(0), Magnitude { strong: 0, weak: 0 });
}

#[test]
fn rumble_commands() {
    let e = rumble_for_tick(7, Magnitude { strong: 1, weak: 2 });
    assert_eq!((e.effect_type, e.id, e.strong, e.weak, e.delay_ms, e.length_ms), (FF_RUMBLE, 7, 1, 2, 0, 100));
    let p = play_event(7);
    assert_eq!((p.kind, p.code, p.value), (EV_FF, 7, 1));
}

#[test]
fn ff_device_records_requested_state() {
    let mut d = FfDevice::new(3);
    assert!(d.take_pending().is_none());
    d.set_ff_state(100, 200, 250);
    let e = d.take_pending().unwrap();
    assert_eq!((e.id, e.strong, e.weak, e.length_ms), (3, 100, 200, 250));
    d.set_ff_state(1, 2, 1_000_000);
    assert_eq!(d.take_pending().unwrap().length_ms, 65535);
    assert!(d.take_pending().is_none());
}

#[test]
fn raw_event_records_id_and_kind() {
    let e = RawEvent::new(2, RawEventType::Connected);
    assert_eq!(e.id, 2);
    assert_eq!(e.event, RawEventType::Connected);
}
