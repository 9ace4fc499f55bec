use vstd::prelude::*;
use std::collections::VecDeque;
use crate::ev::{Event, EventType};
use crate::ff::Message;
use crate::gamepad::{DeviceInfo, Gamepad};
use crate::mapping::{entries_wf, Mapping};
use crate::pipeline::{filter, filter_spec, translate, translate_spec};
use crate::raw::Event as RawEvent;
use crate::raw::EventType as RawEventType;
use crate::sdl::{has_guid, hex_text, nonempty_lines, parse_sdl_mapping, parse_spec, MappingDb};
use crate::state::{apply_spec, lemma_apply_idempotent, AxisData, ButtonData};
use crate::value::Ratio;

verus! {

/// Largest counter value; the counter is 62 bits wide and wraps to zero after it.
pub const MAX_COUNTER: u64 = 0x3FFF_FFFF_FFFF_FFFF;

/// Counter after one increment.
pub open spec fn inc_spec(c: u64) -> u64 {
    if c >= MAX_COUNTER {
        0
    } else {
        (c + 1) as u64
    }
}

/// Counter after `n` increments starting from `c`.
pub open spec fn inc_n(c: u64, n: nat) -> u64
    decreases n,
{
    if n == 0 {
        c
    } else {
        inc_spec(inc_n(c, (n - 1) as nat))
    }
}

/// Counting from zero, `n` increments give `n` as long as the counter does not wrap; the
/// increment after the largest value gives zero.
pub proof fn lemma_counter_counts(n: nat)
    ensures
        n <= MAX_COUNTER ==> inc_n(0, n) == n,
        inc_spec(MAX_COUNTER) == 0,
    decreases n,
{
    if n > 0 {
        lemma_counter_counts((n - 1) as nat);
    }
}

/// Error of building the input context.
#[derive(Debug)]
pub enum Error {
    /// The platform is not supported; the context still works, with no gamepads.
    NotImplemented(Gilrs),
    /// Either `pressed <= released` or one of the values is outside `[0, 1]`.
    InvalidAxisToBtn,
    /// Platform specific error.
    Other(String),
}

/// Whether the thresholds of axis-to-button hysteresis are usable: both well formed, both in
/// `[0, 1]`, and `released < pressed`.
pub open spec fn valid_thresholds(pressed: Ratio, released: Ratio) -> bool {
    &&& pressed.wf()
    &&& released.wf()
    &&& pressed.in_half_unit_range()
    &&& released.in_half_unit_range()
    &&& released.lt_spec(pressed)
}

/// Effect of the next event on the queue: the first event that survives filtering (when the
/// default filters are on) and how many queued events were consumed to find it.
pub open spec fn next_spec(gps: Seq<Gamepad>, filters: bool, q: Seq<Event>) -> (Option<Event>, nat)
    decreases q.len(),
{
    if q.len() == 0 {
        (None, 0)
    } else {
        let e = if filters && q[0].id < gps.len() {
            filter_spec(gps[q[0].id as int], q[0])
        } else {
            q[0]
        };
        if filters && e.event is Dropped {
            let r = next_spec(gps, filters, q.drop_first());
            (r.0, r.1 + 1)
        } else {
            (Some(e), 1)
        }
    }
}

/// `new` is `old` with the event `e` applied, with counter `counter`, to the state of
/// gamepad `e.id`; nothing else changes (and nothing at all for an unknown id).
pub open spec fn state_updated(old: Seq<Gamepad>, new: Seq<Gamepad>, e: Event, counter: u64) -> bool {
    &&& new.len() == old.len()
    &&& forall|i: int| 0 <= i < old.len() && i != e.id ==> new[i] == old[i]
    &&& e.id < old.len() ==> {
        let o = old[e.id as int];
        let n = new[e.id as int];
        &&& n.state_view() == apply_spec(o.state_view(), e.event, counter, e.time)
        &&& n.connected_spec() == o.connected_spec()
        &&& n.mapping_spec() == o.mapping_spec()
        &&& n.id_spec() == o.id_spec()
        &&& n.info_spec() == o.info_spec()
        &&& n.dpad_from_axes_spec() == o.dpad_from_axes_spec()
    }
}

/// `db[i]` is the last line of `db` whose GUID is `guid`.
pub open spec fn is_last_guid_line(db: Seq<Seq<u8>>, guid: Seq<u8>, i: int) -> bool {
    &&& 0 <= i < db.len()
    &&& has_guid(db[i], guid)
    &&& forall|j: int| i < j < db.len() ==> !has_guid(#[trigger] db[j], guid)
}

/// `m` is the mapping resolved for `device` from database `db`: the entries of the last line
/// with the device's GUID when that line parses into consistent entries, else the default
/// mapping.
pub open spec fn mapping_resolved(db: Seq<Seq<u8>>, device: DeviceInfo, m: Mapping) -> bool {
    let guid = hex_text(device.uuid@);
    &&& m.wf()
    &&& (forall|i: int| 0 <= i < db.len() ==> !has_guid(#[trigger] db[i], guid))
        ==> m.is_default_spec()
    &&& forall|i: int|
        #[trigger] is_last_guid_line(db, guid, i) ==> match parse_spec(
            db[i],
            device.buttons@,
            device.axes@,
        ) {
            Ok((es, _)) => if entries_wf(es) {
                !m.is_default_spec() && m.entries_spec() == es
            } else {
                m.is_default_spec()
            },
            Err(_) => m.is_default_spec(),
        }
}

/// Updating twice with the same event and counter leaves every slot as the first update did.
pub proof fn lemma_update_twice(s0: Seq<Gamepad>, s1: Seq<Gamepad>, s2: Seq<Gamepad>, e: Event, counter: u64)
    requires
        state_updated(s0, s1, e, counter),
        state_updated(s1, s2, e, counter),
    ensures
        s2.len() == s1.len(),
        forall|i: int| 0 <= i < s1.len() ==> (#[trigger] s2[i]).state_view() == s1[i].state_view(),
{
    if e.id < s0.len() {
        lemma_apply_idempotent(s0[e.id as int].state_view(), e.event, counter, e.time);
    }
}

/// Manages gamepads: translates raw events into semantic ones, filters them, keeps the cached
/// state, and collects the messages for the force-feedback scheduler.
#[derive(Debug)]
pub struct Gilrs {
    next_id: usize,
    counter: u64,
    mappings: MappingDb,
    default_filters: bool,
    events: VecDeque<Event>,
    axis_to_btn_pressed: Ratio,
    axis_to_btn_released: Ratio,
    update_state: bool,
    gamepads_data: Vec<Gamepad>,
    outbox: Vec<Message>,
}

/// Well-formedness depends on the slots and the thresholds only.
proof fn lemma_wf_frame(a: Gilrs, b: Gilrs)
    requires
        a.gamepads_data@ == b.gamepads_data@,
        a.axis_to_btn_pressed == b.axis_to_btn_pressed,
        a.axis_to_btn_released == b.axis_to_btn_released,
    ensures
        a.wf() == b.wf(),
{
    assert(a.slots() == b.slots());
    assert(a.pressed_threshold() == b.pressed_threshold());
    assert(valid_thresholds(a.pressed_threshold(), a.released_threshold()) == valid_thresholds(b.pressed_threshold(), b.released_threshold()));
}

impl Gilrs {
    pub closed spec fn slots(&self) -> Seq<Gamepad> {
        self.gamepads_data@
    }

    pub closed spec fn queue(&self) -> Seq<Event> {
        self.events@
    }

    pub closed spec fn messages(&self) -> Seq<Message> {
        self.outbox@
    }

    pub closed spec fn counter_spec(&self) -> u64 {
        self.counter
    }

    pub closed spec fn next_id_spec(&self) -> usize {
        self.next_id
    }

    pub closed spec fn filters_spec(&self) -> bool {
        self.default_filters
    }

    pub closed spec fn update_state_spec(&self) -> bool {
        self.update_state
    }

    pub closed spec fn pressed_threshold(&self) -> Ratio {
        self.axis_to_btn_pressed
    }

    pub closed spec fn released_threshold(&self) -> Ratio {
        self.axis_to_btn_released
    }

    pub closed spec fn mappings_spec(&self) -> Seq<Seq<u8>> {
        self.mappings@
    }

    /// Thresholds usable, every slot well formed and at the index of its id.
    pub open spec fn wf(&self) -> bool {
        &&& valid_thresholds(self.pressed_threshold(), self.released_threshold())
        &&& forall|i: int|
            0 <= i < self.slots().len() ==> (#[trigger] self.slots()[i]).wf()
                && self.slots()[i].id_spec() == i
    }

    /// Context with default settings.
    pub fn new() -> (r: Result<Gilrs, Error>)
        ensures
            r matches Ok(g) && g.wf() && g.slots().len() == 0 && g.counter_spec() == 0
                && g.filters_spec() && g.update_state_spec(),
    {
        GilrsBuilder::new().build()
    }

    /// Returns counter. Counter data is stored with state and can be used to determine when
    /// last event happened.
    pub fn counter(&self) -> (r: u64)
        ensures
            r == self.counter_spec(),
    {
        self.counter
    }

    /// Increases internal counter by one, wrapping to zero after [`MAX_COUNTER`].
    pub fn inc(&mut self)
        ensures
            final(self).counter_spec() == inc_spec(old(self).counter_spec()),
            final(self).slots() == old(self).slots(),
            final(self).queue() == old(self).queue(),
            final(self).messages() == old(self).messages(),
            final(self).wf() == old(self).wf(),
    {
        let c: u64 = if self.counter >= MAX_COUNTER {
            0
        } else {
            self.counter + 1
        };
        self.counter = c;
        proof {
            lemma_wf_frame(*old(self), *self);
        }
    }

    /// Sets counter to 0.
    pub fn reset_counter(&mut self)
        ensures
            final(self).counter_spec() == 0,
            final(self).slots() == old(self).slots(),
            final(self).queue() == old(self).queue(),
            final(self).messages() == old(self).messages(),
            final(self).wf() == old(self).wf(),
    {
        self.counter = 0;
        proof {
            lemma_wf_frame(*old(self), *self);
        }
    }

    /// Id for a new force-feedback effect, or `None` once ids are exhausted; ids are handed out
    /// in increasing order and never reused.
    pub fn next_ff_id(&mut self) -> (r: Option<usize>)
        ensures
            old(self).next_id_spec() < usize::MAX ==> r == Some(old(self).next_id_spec())
                && final(self).next_id_spec() == old(self).next_id_spec() + 1,
            old(self).next_id_spec() == usize::MAX ==> r is None && final(self).next_id_spec()
                == old(self).next_id_spec(),
            final(self).slots() == old(self).slots(),
            final(self).queue() == old(self).queue(),
            final(self).wf() == old(self).wf(),
    {
        let id = self.next_id;
        let next: usize = if id == usize::MAX {
            id
        } else {
            id + 1
        };
        self.next_id = next;
        proof {
            lemma_wf_frame(*old(self), *self);
        }
        if id == usize::MAX {
            None
        } else {
            Some(id)
        }
    }

    /// Adds `ev` at the end of the internal event queue.
    pub fn insert_event(&mut self, ev: Event)
        ensures
            final(self).queue() == old(self).queue().push(ev),
            final(self).slots() == old(self).slots(),
            final(self).wf() == old(self).wf(),
    {
        self.events.push_back(ev);
        proof {
            lemma_wf_frame(*old(self), *self);
        }
    }

    /// Whether translated events wait in the queue.
    pub fn has_pending(&self) -> (r: bool)
        ensures
            r == (self.queue().len() > 0),
    {
        self.events.len() > 0
    }

    /// Hands out the messages for the force-feedback scheduler, oldest first, and forgets them.
    pub fn take_messages(&mut self) -> (r: Vec<Message>)
        ensures
            r@ == old(self).messages(),
            final(self).messages().len() == 0,
            final(self).slots() == old(self).slots(),
            final(self).queue() == old(self).queue(),
            final(self).wf() == old(self).wf(),
    {
        let mut r: Vec<Message> = Vec::new();
        std::mem::swap(&mut r, &mut self.outbox);
        proof {
            lemma_wf_frame(*old(self), *self);
        }
        r
    }

    /// Slot of gamepad `id`, if that id was ever observed.
    pub fn gamepad(&self, id: usize) -> (r: Option<&Gamepad>)
        ensures
            id < self.slots().len() ==> r == Some(&self.slots()[id as int]),
            id >= self.slots().len() ==> r is None,
    {
        if id < self.gamepads_data.len() {
            Some(&self.gamepads_data[id])
        } else {
            None
        }
    }

    /// Slot of gamepad `id`, if it is connected.
    pub fn connected_gamepad(&self, id: usize) -> (r: Option<&Gamepad>)
        ensures
            id < self.slots().len() && self.slots()[id as int].connected_spec() ==> r == Some(
                &self.slots()[id as int],
            ),
            !(id < self.slots().len() && self.slots()[id as int].connected_spec()) ==> r is None,
    {
        match self.gamepad(id) {
            Some(g) => if g.is_connected() {
                Some(g)
            } else {
                None
            },
            None => None,
        }
    }

    /// Applies `event` to the cached state of its gamepad, recording the current counter. Events
    /// of unknown gamepads are ignored.
    pub fn update(&mut self, event: &Event)
        requires
            old(self).wf(),
        ensures
            final(self).wf(),
            state_updated(old(self).slots(), final(self).slots(), *event, old(self).counter_spec()),
            final(self).queue() == old(self).queue(),
            final(self).messages() == old(self).messages(),
            final(self).counter_spec() == old(self).counter_spec(),
            final(self).filters_spec() == old(self).filters_spec(),
            final(self).update_state_spec() == old(self).update_state_spec(),
            final(self).pressed_threshold() == old(self).pressed_threshold(),
            final(self).released_threshold() == old(self).released_threshold(),
            final(self).mappings_spec() == old(self).mappings_spec(),
    {
        let counter = self.counter;
        let id = event.id;
        if id < self.gamepads_data.len() {
            let mut gp = self.gamepads_data.remove(id);
            gp.apply(event, counter);
            self.gamepads_data.insert(id, gp);
            proof {
                assert(self.gamepads_data@ =~= old(self).gamepads_data@.update(id as int, gp));
            }
        }
        proof {
            let o = old(self).slots();
            let n = self.slots();
            assert forall|i: int| 0 <= i < n.len() implies (#[trigger] n[i]).wf() && n[i].id_spec()
                == i by {
                assert(o[i].wf());
            }
        }
    }

    /// Next event: the oldest queued event that survives the default filters (when they are
    /// on), applied to the cached state (when automatic updates are on). `None` once the queue
    /// is empty; the caller then feeds the next raw event with [`Gilrs::handle_raw_event`].
    pub fn next_event(&mut self) -> (r: Option<Event>)
        requires
            old(self).wf(),
        ensures
            final(self).wf(),
            r == next_spec(old(self).slots(), old(self).filters_spec(), old(self).queue()).0,
            final(self).queue() == old(self).queue().skip(
                next_spec(old(self).slots(), old(self).filters_spec(), old(self).queue()).1 as int,
            ),
            old(self).update_state_spec() && r is Some ==> state_updated(
                old(self).slots(),
                final(self).slots(),
                r.unwrap(),
                old(self).counter_spec(),
            ),
            !(old(self).update_state_spec() && r is Some) ==> final(self).slots() == old(
                self,
            ).slots(),
            final(self).messages() == old(self).messages(),
            final(self).counter_spec() == old(self).counter_spec(),
            final(self).filters_spec() == old(self).filters_spec(),
            final(self).update_state_spec() == old(self).update_state_spec(),
            final(self).pressed_threshold() == old(self).pressed_threshold(),
            final(self).released_threshold() == old(self).released_threshold(),
    {
        let ghost gps = self.slots();
        let ghost q0 = self.queue();
        let ghost f = self.filters_spec();
        let ghost mut consumed: nat = 0;
        let mut ev: Option<Event> = None;
        let mut done = false;
        while !done
            invariant
                self.wf(),
                self.slots() == gps,
                self.filters_spec() == f,
                gps == old(self).slots(),
                f == old(self).filters_spec(),
                self.messages() == old(self).messages(),
                self.counter_spec() == old(self).counter_spec(),
                self.update_state_spec() == old(self).update_state_spec(),
                self.pressed_threshold() == old(self).pressed_threshold(),
                self.released_threshold() == old(self).released_threshold(),
                self.queue() == q0.skip(consumed as int),
                consumed <= q0.len(),
                !done ==> next_spec(gps, f, q0) == (
                    next_spec(gps, f, self.queue()).0,
                    next_spec(gps, f, self.queue()).1 + consumed,
                ),
                !done ==> ev is None,
                done ==> ev == next_spec(gps, f, q0).0 && consumed == next_spec(gps, f, q0).1,
            decreases self.queue().len() + (if done { 0int } else { 1int }),
        {
            let ghost q = self.queue();
            match self.events.pop_front() {
                None => {
                    done = true;
                },
                Some(e) => {
                    proof {
                        assert(q.drop_first() =~= self.events@);
                        assert(q0.skip(consumed + 1int) =~= q.drop_first());
                        lemma_wf_frame(*old(self), *self);
                        consumed = consumed + 1;
                    }
                    let fe = if self.default_filters && e.id < self.gamepads_data.len() {
                        filter(&self.gamepads_data[e.id], e)
                    } else {
                        e
                    };
                    proof {
                        assert(q.len() > 0 && q[0] == e);
                        assert(fe == (if f && e.id < gps.len() {
                            filter_spec(gps[e.id as int], e)
                        } else {
                            e
                        }));
                        let r = next_spec(gps, f, q.drop_first());
                        if f && fe.event is Dropped {
                            assert(next_spec(gps, f, q) == (r.0, r.1 + 1));
                        } else {
                            assert(next_spec(gps, f, q) == (Some(fe), 1nat));
                        }
                    }
                    if !(self.default_filters && fe.is_dropped()) {
                        ev = Some(fe);
                        done = true;
                    }
                },
            }
        }
        if self.update_state {
            if let Some(e) = ev {
                self.update(&e);
            }
        }
        ev
    }

    /// Mapping for a device: the SDL mapping that the database holds for its UUID, when it
    /// parses and fits the device, else the default mapping.
    fn resolve_mapping(&self, device: &DeviceInfo) -> (r: Mapping)
        ensures
            mapping_resolved(self.mappings_spec(), *device, r),
    {
        let found = self.mappings.get(device.uuid);
        proof {
            if let Some(l) = found {
                let db = self.mappings@;
                assert(self.mappings_spec() == db);
                let i = choose|i: int|
                    0 <= i < db.len() && db[i] == l@ && has_guid(l@, hex_text(device.uuid@))
                        && forall|j: int| i < j < db.len() ==> !has_guid(#[trigger] db[j], hex_text(device.uuid@));
                assert(has_guid(self.mappings_spec()[i], hex_text(device.uuid@)));
                assert forall|k: int| #[trigger]
                    is_last_guid_line(db, hex_text(device.uuid@), k) implies k == i by {
                    if k < i {
                        assert(!has_guid(db[i], hex_text(device.uuid@)));
                    } else if k > i {
                        assert(!has_guid(db[k], hex_text(device.uuid@)));
                    }
                }
                assert(is_last_guid_line(db, hex_text(device.uuid@), i));
            }
        }
        match found {
            Some(line) => match parse_sdl_mapping(line.as_slice(), device.buttons.as_slice(), device.axes.as_slice()) {
                Ok(m) => m,
                Err(_) => Mapping::default_mapping(),
            },
            None => Mapping::default_mapping(),
        }
    }

    /// Takes one raw event of the device backend. `device` is the backend's description of
    /// device `raw.id`; it is read when that device connects.
    ///
    /// Button and axis events of a known gamepad are translated and queued. `Connected`
    /// (re)initializes the gamepad's slot with a fresh state and a resolved mapping, asks the
    /// force-feedback scheduler to open the device if it supports force feedback, and queues
    /// `Connected`. `Disconnected` marks a known gamepad as disconnected, asks the scheduler to
    /// close it, and queues `Disconnected`. Events of unknown gamepads are ignored, as is a
    /// connection whose id skips over unseen ids.
    pub fn handle_raw_event(&mut self, raw: RawEvent, device: DeviceInfo)
        requires
            old(self).wf(),
        ensures
            final(self).wf(),
            final(self).counter_spec() == old(self).counter_spec(),
            final(self).filters_spec() == old(self).filters_spec(),
            final(self).update_state_spec() == old(self).update_state_spec(),
            final(self).pressed_threshold() == old(self).pressed_threshold(),
            final(self).released_threshold() == old(self).released_threshold(),
            final(self).mappings_spec() == old(self).mappings_spec(),
            raw.event is ButtonPressed || raw.event is ButtonReleased || raw.event is AxisValueChanged
                ==> {
                &&& final(self).slots() == old(self).slots()
                &&& final(self).messages() == old(self).messages()
                &&& raw.id < old(self).slots().len() ==> final(self).queue() == old(self).queue()
                    + translate_spec(
                    old(self).slots()[raw.id as int],
                    old(self).pressed_threshold(),
                    old(self).released_threshold(),
                    raw,
                )
                &&& raw.id >= old(self).slots().len() ==> final(self).queue() == old(self).queue()
            },
            raw.event is Connected && raw.id <= old(self).slots().len() ==> {
                let n = final(self).slots()[raw.id as int];
                &&& final(self).queue() == old(self).queue().push(
                    Event { id: raw.id, event: EventType::Connected, time: raw.time },
                )
                &&& final(self).slots().len() == if raw.id == old(self).slots().len() {
                    old(self).slots().len() + 1
                } else {
                    old(self).slots().len() + 0
                }
                &&& forall|i: int|
                    0 <= i < old(self).slots().len() && i != raw.id ==> final(self).slots()[i]
                        == old(self).slots()[i]
                &&& n.id_spec() == raw.id
                &&& n.info_spec() == device
                &&& n.connected_spec()
                &&& n.state_view().buttons == Map::<u32, ButtonData>::empty()
                &&& n.state_view().axes == Map::<u32, AxisData>::empty()
                &&& mapping_resolved(old(self).mappings_spec(), device, n.mapping_spec())
                &&& final(self).messages() == if device.ff_supported {
                    old(self).messages().push(Message::Open { id: raw.id })
                } else {
                    old(self).messages()
                }
            },
            raw.event is Connected && raw.id > old(self).slots().len() ==> {
                &&& final(self).queue() == old(self).queue().push(
                    Event { id: raw.id, event: EventType::Connected, time: raw.time },
                )
                &&& final(self).slots() == old(self).slots()
                &&& final(self).messages() == old(self).messages()
            },
            raw.event is Disconnected && raw.id < old(self).slots().len() ==> {
                let o = old(self).slots()[raw.id as int];
                let n = final(self).slots()[raw.id as int];
                &&& final(self).queue() == old(self).queue().push(
                    Event { id: raw.id, event: EventType::Disconnected, time: raw.time },
                )
                &&& final(self).slots().len() == old(self).slots().len()
                &&& forall|i: int|
                    0 <= i < old(self).slots().len() && i != raw.id ==> final(self).slots()[i]
                        == old(self).slots()[i]
                &&& !n.connected_spec()
                &&& n.state_view() == o.state_view()
                &&& n.mapping_spec() == o.mapping_spec()
                &&& n.info_spec() == o.info_spec()
                &&& n.id_spec() == o.id_spec()
                &&& final(self).messages() == old(self).messages().push(Message::Close { id: raw.id })
            },
            raw.event is Disconnected && raw.id >= old(self).slots().len() ==> {
                &&& final(self).queue() == old(self).queue()
                &&& final(self).slots() == old(self).slots()
                &&& final(self).messages() == old(self).messages()
            },
    {
        let id = raw.id;
        let len = self.gamepads_data.len();
        match raw.event {
            RawEventType::Connected => {
                if id <= len {
                    let mapping = self.resolve_mapping(&device);
                    let ff = device.ff_supported;
                    let gp = Gamepad::new(id, device, mapping);
                    if id == len {
                        self.gamepads_data.push(gp);
                    } else {
                        self.gamepads_data.remove(id);
                        self.gamepads_data.insert(id, gp);
                    }
                    if ff {
                        self.outbox.push(Message::Open { id });
                    }
                    proof {
                        let o = old(self).slots();
                        let n = self.slots();
                        assert(n =~= if id == len { o.push(gp) } else { o.update(id as int, gp) });
                        assert forall|i: int| 0 <= i < n.len() implies (#[trigger] n[i]).wf()
                            && n[i].id_spec() == i by {
                            if i != id {
                                assert(o[i].wf());
                            }
                        }
                    }
                }
                self.events.push_back(crate::ev::Event::new(id, EventType::Connected, raw.time));
            },
            RawEventType::Disconnected => {
                if id < len {
                    let mut gp = self.gamepads_data.remove(id);
                    gp.set_disconnected();
                    self.gamepads_data.insert(id, gp);
                    self.outbox.push(Message::Close { id });
                    self.events.push_back(crate::ev::Event::new(id, EventType::Disconnected, raw.time));
                    proof {
                        let o = old(self).slots();
                        let n = self.slots();
                        assert(n =~= o.update(id as int, gp));
                        assert forall|i: int| 0 <= i < n.len() implies (#[trigger] n[i]).wf()
                            && n[i].id_spec() == i by {
                            assert(o[i].wf());
                        }
                    }
                }
            },
            _ => {
                if id < len {
                    let evs = translate(
                        &self.gamepads_data[id],
                        &self.axis_to_btn_pressed,
                        &self.axis_to_btn_released,
                        &raw,
                    );
                    let ghost q = self.events@;
                    let m = evs.len();
                    let mut k: usize = 0;
                    while k < m
                        invariant
                            m == evs@.len(),
                            0 <= k <= m,
                            self.events@ == q + evs@.subrange(0, k as int),
                            self.gamepads_data@ == old(self).gamepads_data@,
                            self.outbox@ == old(self).outbox@,
                            self.counter == old(self).counter,
                            self.default_filters == old(self).default_filters,
                            self.update_state == old(self).update_state,
                            self.axis_to_btn_pressed == old(self).axis_to_btn_pressed,
                            self.axis_to_btn_released == old(self).axis_to_btn_released,
                            self.mappings == old(self).mappings,
                        decreases m - k,
                    {
                        self.events.push_back(evs[k]);
                        assert(self.events@ =~= q + evs@.subrange(0, k + 1));
                        k = k + 1;
                    }
                    assert(evs@.subrange(0, m as int) =~= evs@);
                }
            },
        }
        proof {
            if !(raw.event is Connected && id <= len) && !(raw.event is Disconnected && id < len) {
                lemma_wf_frame(*old(self), *self);
            }
        }
    }

    /// Ids of the connected gamepads, in increasing order.
    pub fn gamepads(&self) -> (r: Vec<usize>)
        ensures
            forall|i: int| 0 <= i < r@.len() ==> (#[trigger] r@[i]) < self.slots().len()
                && self.slots()[r@[i] as int].connected_spec(),
            forall|k: int|
                0 <= k < self.slots().len() && (#[trigger] self.slots()[k]).connected_spec()
                    ==> r@.contains(k as usize),
            forall|i: int, j: int| 0 <= i < j < r@.len() ==> r@[i] < r@[j],
    {
        let n = self.gamepads_data.len();
        let mut out: Vec<usize> = Vec::new();
        let mut k: usize = 0;
        while k < n
            invariant
                n == self.slots().len(),
                0 <= k <= n,
                forall|i: int| 0 <= i < out@.len() ==> (#[trigger] out@[i]) < k
                    && self.slots()[out@[i] as int].connected_spec(),
                forall|m: int|
                    0 <= m < k && (#[trigger] self.slots()[m]).connected_spec() ==> out@.contains(
                        m as usize,
                    ),
                forall|i: int, j: int| 0 <= i < j < out@.len() ==> out@[i] < out@[j],
            decreases n - k,
        {
            if self.gamepads_data[k].is_connected() {
                let ghost prev = out@;
                out.push(k);
                proof {
                    assert(out@[out@.len() - 1] == k);
                    assert forall|m: int|
                        0 <= m < k + 1 && (#[trigger] self.slots()[m]).connected_spec()
                            implies out@.contains(m as usize) by {
                        if m < k {
                            assert(prev.contains(m as usize));
                            let i = choose|i: int| 0 <= i < prev.len() && prev[i] == m as usize;
                            assert(out@[i] == m as usize);
                        } else {
                            assert(out@[out@.len() - 1] == m as usize);
                        }
                    }
                }
            }
            k = k + 1;
        }
        out
    }
}

/// Builds [`Gilrs`] with custom settings.
#[derive(Debug)]
pub struct GilrsBuilder {
    mappings: MappingDb,
    default_filters: bool,
    axis_to_btn_pressed: Ratio,
    axis_to_btn_released: Ratio,
    update_state: bool,
    env_mappings: bool,
    included_mappings: bool,
}

impl GilrsBuilder {
    pub closed spec fn mappings_spec(&self) -> Seq<Seq<u8>> {
        self.mappings@
    }

    pub closed spec fn filters_spec(&self) -> bool {
        self.default_filters
    }

    pub closed spec fn pressed_spec(&self) -> Ratio {
        self.axis_to_btn_pressed
    }

    pub closed spec fn released_spec(&self) -> Ratio {
        self.axis_to_btn_released
    }

    pub closed spec fn update_state_spec(&self) -> bool {
        self.update_state
    }

    pub closed spec fn env_mappings_spec(&self) -> bool {
        self.env_mappings
    }

    pub closed spec fn included_mappings_spec(&self) -> bool {
        self.included_mappings
    }

    /// Default settings: default filters on, thresholds `0.75` and `0.65`, automatic state
    /// updates on, environment and bundled mappings wanted, no mappings yet.
    pub fn new() -> (r: GilrsBuilder)
        ensures
            r.mappings_spec() == Seq::<Seq<u8>>::empty(),
            r.filters_spec(),
            r.pressed_spec() == (Ratio { num: 3, den: 4 }),
            r.released_spec() == (Ratio { num: 13, den: 20 }),
            r.update_state_spec(),
            r.env_mappings_spec(),
            r.included_mappings_spec(),
    {
        GilrsBuilder {
            mappings: MappingDb::new(),
            default_filters: true,
            axis_to_btn_pressed: Ratio::new(3, 4),
            axis_to_btn_released: Ratio::new(13, 20),
            update_state: true,
            env_mappings: true,
            included_mappings: true,
        }
    }

    /// Whether to run the D-pad, jitter and dead-zone filters on every event.
    pub fn with_default_filters(self, default_filters: bool) -> (r: GilrsBuilder)
        ensures
            r.mappings_spec() == self.mappings_spec(),
            r.filters_spec() == default_filters,
            r.pressed_spec() == self.pressed_spec(),
            r.released_spec() == self.released_spec(),
            r.update_state_spec() == self.update_state_spec(),
            r.env_mappings_spec() == self.env_mappings_spec(),
            r.included_mappings_spec() == self.included_mappings_spec(),
    {
        GilrsBuilder { default_filters, ..self }
    }

    /// Adds SDL mappings, one per line.
    pub fn add_mappings(self, mappings: &[u8]) -> (r: GilrsBuilder)
        ensures
            r.mappings_spec() == self.mappings_spec() + nonempty_lines(mappings@),
            r.filters_spec() == self.filters_spec(),
            r.pressed_spec() == self.pressed_spec(),
            r.released_spec() == self.released_spec(),
            r.update_state_spec() == self.update_state_spec(),
            r.env_mappings_spec() == self.env_mappings_spec(),
            r.included_mappings_spec() == self.included_mappings_spec(),
    {
        let mut b = self;
        b.mappings.insert(mappings);
        b
    }

    /// Whether the mappings of the `SDL_GAMECONTROLLERCONFIG` environment variable are wanted.
    pub fn add_env_mappings(self, env_mappings: bool) -> (r: GilrsBuilder)
        ensures
            r.mappings_spec() == self.mappings_spec(),
            r.filters_spec() == self.filters_spec(),
            r.pressed_spec() == self.pressed_spec(),
            r.released_spec() == self.released_spec(),
            r.update_state_spec() == self.update_state_spec(),
            r.env_mappings_spec() == env_mappings,
            r.included_mappings_spec() == self.included_mappings_spec(),
    {
        GilrsBuilder { env_mappings, ..self }
    }

    /// Whether the bundled mapping database is wanted.
    pub fn add_included_mappings(self, included_mappings: bool) -> (r: GilrsBuilder)
        ensures
            r.mappings_spec() == self.mappings_spec(),
            r.filters_spec() == self.filters_spec(),
            r.pressed_spec() == self.pressed_spec(),
            r.released_spec() == self.released_spec(),
            r.update_state_spec() == self.update_state_spec(),
            r.env_mappings_spec() == self.env_mappings_spec(),
            r.included_mappings_spec() == included_mappings,
    {
        GilrsBuilder { included_mappings, ..self }
    }

    /// Values at which an axis mapped to a button is pressed and released.
    pub fn set_axis_to_btn(self, pressed: Ratio, released: Ratio) -> (r: GilrsBuilder)
        ensures
            r.mappings_spec() == self.mappings_spec(),
            r.filters_spec() == self.filters_spec(),
            r.pressed_spec() == pressed,
            r.released_spec() == released,
            r.update_state_spec() == self.update_state_spec(),
            r.env_mappings_spec() == self.env_mappings_spec(),
            r.included_mappings_spec() == self.included_mappings_spec(),
    {
        GilrsBuilder { axis_to_btn_pressed: pressed, axis_to_btn_released: released, ..self }
    }

    /// Whether [`Gilrs::next_event`] applies each event it returns to the cached state.
    pub fn set_update_state(self, enabled: bool) -> (r: GilrsBuilder)
        ensures
            r.mappings_spec() == self.mappings_spec(),
            r.filters_spec() == self.filters_spec(),
            r.pressed_spec() == self.pressed_spec(),
            r.released_spec() == self.released_spec(),
            r.update_state_spec() == enabled,
            r.env_mappings_spec() == self.env_mappings_spec(),
            r.included_mappings_spec() == self.included_mappings_spec(),
    {
        GilrsBuilder { update_state: enabled, ..self }
    }

    /// Whether the environment's mappings are wanted.
    pub fn env_mappings_wanted(&self) -> (r: bool)
        ensures
            r == self.env_mappings_spec(),
    {
        self.env_mappings
    }

    /// Whether the bundled mappings are wanted.
    pub fn included_mappings_wanted(&self) -> (r: bool)
        ensures
            r == self.included_mappings_spec(),
    {
        self.included_mappings
    }

    /// Creates the context, with no gamepads and counter zero. Fails with `InvalidAxisToBtn`
    /// exactly when the thresholds are not [`valid_thresholds`].
    pub fn build(self) -> (r: Result<Gilrs, Error>)
        ensures
            !valid_thresholds(self.pressed_spec(), self.released_spec()) ==> (r matches Err(e) && e is InvalidAxisToBtn),
            valid_thresholds(self.pressed_spec(), self.released_spec()) ==> (r matches Ok(g) && {
                &&& g.wf()
                &&& g.slots().len() == 0
                &&& g.queue().len() == 0
                &&& g.messages().len() == 0
                &&& g.counter_spec() == 0
                &&& g.next_id_spec() == 0
                &&& g.filters_spec() == self.filters_spec()
                &&& g.update_state_spec() == self.update_state_spec()
                &&& g.pressed_threshold() == self.pressed_spec()
                &&& g.released_threshold() == self.released_spec()
                &&& g.mappings_spec() == self.mappings_spec()
            }),
    {
        let p = self.axis_to_btn_pressed;
        let q = self.axis_to_btn_released;
        if !(p.is_wf() && q.is_wf()) {
            return Err(Error::InvalidAxisToBtn);
        }
        let zero = Ratio::zero();
        let one = Ratio::one();
        if !(q.lt(&p) && zero.le(&p) && p.le(&one) && zero.le(&q) && q.le(&one)) {
            proof {
                lemma_unit_bounds(p);
                lemma_unit_bounds(q);
            }
            return Err(Error::InvalidAxisToBtn);
        }
        proof {
            lemma_unit_bounds(p);
            lemma_unit_bounds(q);
        }
        let g = Gilrs {
            next_id: 0,
            counter: 0,
            mappings: self.mappings,
            default_filters: self.default_filters,
            events: VecDeque::new(),
            axis_to_btn_pressed: p,
            axis_to_btn_released: q,
            update_state: self.update_state,
            gamepads_data: Vec::new(),
            outbox: Vec::new(),
        };
        Ok(g)
    }
}

/// Comparing with `0` and `1` is comparing the numerator with `0` and the denominator.
proof fn lemma_unit_bounds(p: Ratio)
    requires
        p.wf(),
    ensures
        (Ratio { num: 0, den: 1 }).le_spec(p) <==> 0 <= p.num,
        p.le_spec((Ratio { num: 1, den: 1 })) <==> p.num <= p.den,
{
    assert(0 * p.den == 0) by (nonlinear_arith);
}

} // verus!
