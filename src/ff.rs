use vstd::prelude::*;
use crate::raw::{rumble_effect, saturate_ms, RumbleEffect, FF_RUMBLE};

verus! {

/// Length of one scheduler tick, in milliseconds.
pub const TICK_DURATION: u64 = 50;

/// Largest motor magnitude.
pub const MAX_MAGNITUDE: u16 = 0xffff;

/// Position in space, in millimetres.
#[derive(Copy, Clone, Debug, PartialEq, Eq, Structural)]
pub struct Position {
    pub x: i32,
    pub y: i32,
    pub z: i32,
}

/// Target intensities of the strong and the weak rumble motor.
#[derive(Copy, Clone, Debug, PartialEq, Eq, Structural)]
pub struct Magnitude {
    pub strong: u16,
    pub weak: u16,
}

/// Command to the force-feedback scheduler.
#[derive(Copy, Clone, Debug, PartialEq, Eq, Structural)]
pub enum Message {
    /// The device with this id was connected and can play effects.
    Open { id: usize },
    /// The device with this id is gone: drop its handle and its effects.
    Close { id: usize },
    /// Position of the listener of positional effects on this device.
    SetListenerPosition { id: usize, position: Position },
    /// Starts effect `effect` on device `device` for `ticks` ticks.
    Play { effect: usize, device: usize, magnitude: Magnitude, ticks: u32 },
    /// Stops effect `effect`.
    Stop { effect: usize },
}

/// One active effect: its id, its device, its magnitude and the ticks it still plays.
#[derive(Copy, Clone, Debug, PartialEq, Eq, Structural)]
pub struct Effect {
    pub effect: usize,
    pub device: usize,
    pub magnitude: Magnitude,
    pub ticks_left: u32,
}

/// Sum of the strong magnitudes of the effects on `device`.
pub open spec fn strong_sum(es: Seq<Effect>, device: usize) -> int
    decreases es.len(),
{
    if es.len() == 0 {
        0
    } else {
        strong_sum(es.drop_last(), device) + if es.last().device == device {
            es.last().magnitude.strong as int
        } else {
            0
        }
    }
}

/// Sum of the weak magnitudes of the effects on `device`.
pub open spec fn weak_sum(es: Seq<Effect>, device: usize) -> int
    decreases es.len(),
{
    if es.len() == 0 {
        0
    } else {
        weak_sum(es.drop_last(), device) + if es.last().device == device {
            es.last().magnitude.weak as int
        } else {
            0
        }
    }
}

pub open spec fn cap(v: int) -> u16 {
    if v > MAX_MAGNITUDE {
        MAX_MAGNITUDE
    } else {
        v as u16
    }
}

/// Combined magnitude of the effects on `device`: per motor, the sum clamped to the largest
/// magnitude.
pub open spec fn combined_spec(es: Seq<Effect>, device: usize) -> Magnitude {
    Magnitude { strong: cap(strong_sum(es, device)), weak: cap(weak_sum(es, device)) }
}

/// Effects after one tick: each plays one tick less, and those with no tick left are gone.
pub open spec fn aged(es: Seq<Effect>) -> Seq<Effect>
    decreases es.len(),
{
    if es.len() == 0 {
        es
    } else {
        let e = es.last();
        let rest = aged(es.drop_last());
        if e.ticks_left <= 1 {
            rest
        } else {
            rest.push(Effect { ticks_left: (e.ticks_left - 1) as u32, ..e })
        }
    }
}

/// The effects that are not on `device`, in order.
pub open spec fn without_device(es: Seq<Effect>, device: usize) -> Seq<Effect>
    decreases es.len(),
{
    if es.len() == 0 {
        es
    } else {
        let rest = without_device(es.drop_last(), device);
        if es.last().device == device {
            rest
        } else {
            rest.push(es.last())
        }
    }
}

/// The effects other than `effect`, in order.
pub open spec fn without_effect(es: Seq<Effect>, effect: usize) -> Seq<Effect>
    decreases es.len(),
{
    if es.len() == 0 {
        es
    } else {
        let rest = without_effect(es.drop_last(), effect);
        if es.last().effect == effect {
            rest
        } else {
            rest.push(es.last())
        }
    }
}

/// The listener positions of devices other than `device`, in order.
pub open spec fn without_listener(ls: Seq<(usize, Position)>, device: usize) -> Seq<(usize, Position)>
    decreases ls.len(),
{
    if ls.len() == 0 {
        ls
    } else {
        let rest = without_listener(ls.drop_last(), device);
        if ls.last().0 == device {
            rest
        } else {
            rest.push(ls.last())
        }
    }
}

/// The open devices other than `device`, in order.
pub open spec fn without_id(ids: Seq<usize>, device: usize) -> Seq<usize>
    decreases ids.len(),
{
    if ids.len() == 0 {
        ids
    } else {
        let rest = without_id(ids.drop_last(), device);
        if ids.last() == device {
            rest
        } else {
            rest.push(ids.last())
        }
    }
}

proof fn lemma_without_device_keeps(es: Seq<Effect>, device: usize)
    ensures
        forall|i: int| 0 <= i < without_device(es, device).len() ==> es.contains(
            #[trigger] without_device(es, device)[i],
        ) && without_device(es, device)[i].device != device,
    decreases es.len(),
{
    if es.len() > 0 {
        lemma_without_device_keeps(es.drop_last(), device);
        let rest = without_device(es.drop_last(), device);
        assert forall|i: int| 0 <= i < without_device(es, device).len() implies es.contains(
            #[trigger] without_device(es, device)[i],
        ) && without_device(es, device)[i].device != device by {
            if i < rest.len() {
                let j = choose|j: int| 0 <= j < es.drop_last().len() && es.drop_last()[j] == rest[i];
                assert(es[j] == rest[i]);
            } else {
                assert(es[es.len() - 1] == es.last());
            }
        }
    }
}

proof fn lemma_without_effect_keeps(es: Seq<Effect>, effect: usize)
    ensures
        forall|i: int| 0 <= i < without_effect(es, effect).len() ==> es.contains(
            #[trigger] without_effect(es, effect)[i],
        ),
    decreases es.len(),
{
    if es.len() > 0 {
        lemma_without_effect_keeps(es.drop_last(), effect);
        let rest = without_effect(es.drop_last(), effect);
        assert forall|i: int| 0 <= i < without_effect(es, effect).len() implies es.contains(
            #[trigger] without_effect(es, effect)[i],
        ) by {
            if i < rest.len() {
                let j = choose|j: int| 0 <= j < es.drop_last().len() && es.drop_last()[j] == rest[i];
                assert(es[j] == rest[i]);
            } else {
                assert(es[es.len() - 1] == es.last());
            }
        }
    }
}

proof fn lemma_aged_keeps_devices(es: Seq<Effect>)
    ensures
        forall|i: int| 0 <= i < aged(es).len() ==> exists|j: int|
            0 <= j < es.len() && (#[trigger] aged(es)[i]).device == es[j].device,
    decreases es.len(),
{
    if es.len() > 0 {
        lemma_aged_keeps_devices(es.drop_last());
        let rest = aged(es.drop_last());
        assert forall|i: int| 0 <= i < aged(es).len() implies exists|j: int|
            0 <= j < es.len() && (#[trigger] aged(es)[i]).device == es[j].device by {
            if i < rest.len() {
                let j = choose|j: int|
                    0 <= j < es.drop_last().len() && rest[i].device == es.drop_last()[j].device;
                assert(es[j] == es.drop_last()[j]);
            } else {
                assert(aged(es)[i].device == es[es.len() - 1].device);
            }
        }
    }
}

proof fn lemma_push_contains(s: Seq<usize>, v: usize, x: usize)
    ensures
        s.push(v).contains(x) <==> s.contains(x) || x == v,
{
    if s.contains(x) {
        let j = choose|j: int| 0 <= j < s.len() && s[j] == x;
        assert(s.push(v)[j] == x);
    }
    if x == v {
        assert(s.push(v)[s.len() as int] == x);
    }
    if s.push(v).contains(x) {
        let j = choose|j: int| 0 <= j < s.push(v).len() && s.push(v)[j] == x;
        if j < s.len() {
            assert(s[j] == x);
        }
    }
}

proof fn lemma_without_id_contains(ids: Seq<usize>, device: usize, x: usize)
    requires
        ids.no_duplicates(),
    ensures
        without_id(ids, device).contains(x) <==> ids.contains(x) && x != device,
        without_id(ids, device).no_duplicates(),
    decreases ids.len(),
{
    if ids.len() > 0 {
        let d = ids.drop_last();
        let last = ids.last();
        assert(d.no_duplicates());
        lemma_without_id_contains(d, device, x);
        lemma_without_id_contains(d, device, last);
        assert(ids =~= d.push(last));
        lemma_push_contains(d, last, x);
        assert(!d.contains(last)) by {
            if d.contains(last) {
                let j = choose|j: int| 0 <= j < d.len() && d[j] == last;
                assert(ids[j] == ids[ids.len() - 1]);
            }
        }
        let rest = without_id(d, device);
        if last != device {
            lemma_push_contains(rest, last, x);
            assert forall|a: int, b: int|
                0 <= a < rest.push(last).len() && 0 <= b < rest.push(last).len() && a != b
                    implies rest.push(last)[a] != rest.push(last)[b] by {
                if a == rest.len() as int {
                    assert(rest.contains(rest.push(last)[b]));
                } else if b == rest.len() as int {
                    assert(rest.contains(rest.push(last)[a]));
                }
            }
        }
    }
}

proof fn lemma_sums_nonneg(es: Seq<Effect>, device: usize)
    ensures
        strong_sum(es, device) >= 0,
        weak_sum(es, device) >= 0,
    decreases es.len(),
{
    if es.len() > 0 {
        lemma_sums_nonneg(es.drop_last(), device);
    }
}

/// Rumble upload that plays `m` for two ticks on effect slot `slot`, so that the motor keeps
/// running until the next tick's command arrives.
pub fn rumble_for_tick(slot: i16, m: Magnitude) -> (r: RumbleEffect)
    ensures
        r == (RumbleEffect {
            effect_type: FF_RUMBLE,
            id: slot,
            strong: m.strong,
            weak: m.weak,
            delay_ms: 0,
            length_ms: saturate_ms((2 * TICK_DURATION) as u64),
        }),
{
    rumble_effect(slot, m.strong, m.weak, 2 * TICK_DURATION)
}

/// State of the force-feedback worker: the open devices, in the order they were opened, the
/// active effects and the listener positions.
#[derive(Debug)]
pub struct FfScheduler {
    open: Vec<usize>,
    effects: Vec<Effect>,
    listeners: Vec<(usize, Position)>,
}

impl FfScheduler {
    pub closed spec fn open_spec(&self) -> Seq<usize> {
        self.open@
    }

    pub closed spec fn effects_spec(&self) -> Seq<Effect> {
        self.effects@
    }

    pub closed spec fn listeners_spec(&self) -> Seq<(usize, Position)> {
        self.listeners@
    }

    /// Open devices are listed once each; every effect is on an open device.
    pub open spec fn wf(&self) -> bool {
        &&& self.open_spec().no_duplicates()
        &&& forall|i: int|
            0 <= i < self.effects_spec().len() ==> self.open_spec().contains(
                (#[trigger] self.effects_spec()[i]).device,
            )
    }

    /// No device open, no effect.
    pub fn new() -> (r: FfScheduler)
        ensures
            r.wf(),
            r.open_spec() == Seq::<usize>::empty(),
            r.effects_spec() == Seq::<Effect>::empty(),
            r.listeners_spec() == Seq::<(usize, Position)>::empty(),
    {
        FfScheduler { open: Vec::new(), effects: Vec::new(), listeners: Vec::new() }
    }

    /// Whether device `id` is open.
    pub fn is_open(&self, id: usize) -> (r: bool)
        ensures
            r == self.open_spec().contains(id),
    {
        let n = self.open.len();
        let mut i: usize = 0;
        while i < n
            invariant
                n == self.open@.len(),
                0 <= i <= n,
                forall|k: int| 0 <= k < i ==> self.open@[k] != id,
            decreases n - i,
        {
            if self.open[i] == id {
                return true;
            }
            i = i + 1;
        }
        false
    }

    fn drop_device_effects(&mut self, device: usize)
        ensures
            final(self).effects_spec() == without_device(old(self).effects_spec(), device),
            final(self).open_spec() == old(self).open_spec(),
            final(self).listeners_spec() == old(self).listeners_spec(),
    {
        let n = self.effects.len();
        let mut out: Vec<Effect> = Vec::new();
        let mut i: usize = 0;
        while i < n
            invariant
                n == self.effects@.len(),
                self.effects@ == old(self).effects@,
                self.open@ == old(self).open@,
                self.listeners@ == old(self).listeners@,
                0 <= i <= n,
                out@ == without_device(self.effects@.subrange(0, i as int), device),
            decreases n - i,
        {
            assert(self.effects@.subrange(0, i + 1).drop_last() =~= self.effects@.subrange(0, i as int));
            if self.effects[i].device != device {
                out.push(self.effects[i]);
            }
            i = i + 1;
        }
        assert(self.effects@.subrange(0, n as int) =~= self.effects@);
        self.effects = out;
    }

    fn drop_effect(&mut self, effect: usize)
        ensures
            final(self).effects_spec() == without_effect(old(self).effects_spec(), effect),
            final(self).open_spec() == old(self).open_spec(),
            final(self).listeners_spec() == old(self).listeners_spec(),
    {
        let n = self.effects.len();
        let mut out: Vec<Effect> = Vec::new();
        let mut i: usize = 0;
        while i < n
            invariant
                n == self.effects@.len(),
                self.effects@ == old(self).effects@,
                self.open@ == old(self).open@,
                self.listeners@ == old(self).listeners@,
                0 <= i <= n,
                out@ == without_effect(self.effects@.subrange(0, i as int), effect),
            decreases n - i,
        {
            assert(self.effects@.subrange(0, i + 1).drop_last() =~= self.effects@.subrange(0, i as int));
            if self.effects[i].effect != effect {
                out.push(self.effects[i]);
            }
            i = i + 1;
        }
        assert(self.effects@.subrange(0, n as int) =~= self.effects@);
        self.effects = out;
    }

    fn drop_listener(&mut self, device: usize)
        ensures
            final(self).listeners_spec() == without_listener(old(self).listeners_spec(), device),
            final(self).open_spec() == old(self).open_spec(),
            final(self).effects_spec() == old(self).effects_spec(),
    {
        let n = self.listeners.len();
        let mut out: Vec<(usize, Position)> = Vec::new();
        let mut i: usize = 0;
        while i < n
            invariant
                n == self.listeners@.len(),
                self.effects@ == old(self).effects@,
                self.open@ == old(self).open@,
                self.listeners@ == old(self).listeners@,
                0 <= i <= n,
                out@ == without_listener(self.listeners@.subrange(0, i as int), device),
            decreases n - i,
        {
            assert(self.listeners@.subrange(0, i + 1).drop_last() =~= self.listeners@.subrange(
                0,
                i as int,
            ));
            if self.listeners[i].0 != device {
                out.push(self.listeners[i]);
            }
            i = i + 1;
        }
        assert(self.listeners@.subrange(0, n as int) =~= self.listeners@);
        self.listeners = out;
    }

    fn drop_open(&mut self, device: usize)
        ensures
            final(self).open_spec() == without_id(old(self).open_spec(), device),
            final(self).listeners_spec() == old(self).listeners_spec(),
            final(self).effects_spec() == old(self).effects_spec(),
    {
        let n = self.open.len();
        let mut out: Vec<usize> = Vec::new();
        let mut i: usize = 0;
        while i < n
            invariant
                n == self.open@.len(),
                self.effects@ == old(self).effects@,
                self.open@ == old(self).open@,
                self.listeners@ == old(self).listeners@,
                0 <= i <= n,
                out@ == without_id(self.open@.subrange(0, i as int), device),
            decreases n - i,
        {
            assert(self.open@.subrange(0, i + 1).drop_last() =~= self.open@.subrange(0, i as int));
            if self.open[i] != device {
                out.push(self.open[i]);
            }
            i = i + 1;
        }
        assert(self.open@.subrange(0, n as int) =~= self.open@);
        self.open = out;
    }

    /// Carries out one message. `Open` registers the device (if it was not open) and clears
    /// its effects; `Close` forgets the device, its effects and its listener position;
    /// `SetListenerPosition` records the position of an open device; `Play` replaces any effect
    /// with the same id by the new one, on an open device and for at least one tick; `Stop`
    /// removes the effect. Messages about devices that are not open change nothing.
    pub fn handle(&mut self, msg: Message)
        requires
            old(self).wf(),
        ensures
            final(self).wf(),
            match msg {
                Message::Open { id } => {
                    &&& final(self).open_spec() == if old(self).open_spec().contains(id) {
                        old(self).open_spec()
                    } else {
                        old(self).open_spec().push(id)
                    }
                    &&& final(self).effects_spec() == without_device(old(self).effects_spec(), id)
                    &&& final(self).listeners_spec() == old(self).listeners_spec()
                },
                Message::Close { id } => {
                    &&& final(self).open_spec() == without_id(old(self).open_spec(), id)
                    &&& final(self).effects_spec() == without_device(old(self).effects_spec(), id)
                    &&& final(self).listeners_spec() == without_listener(
                        old(self).listeners_spec(),
                        id,
                    )
                },
                Message::SetListenerPosition { id, position } => {
                    &&& final(self).open_spec() == old(self).open_spec()
                    &&& final(self).effects_spec() == old(self).effects_spec()
                    &&& final(self).listeners_spec() == if old(self).open_spec().contains(id) {
                        without_listener(old(self).listeners_spec(), id).push((id, position))
                    } else {
                        old(self).listeners_spec()
                    }
                },
                Message::Play { effect, device, magnitude, ticks } => {
                    &&& final(self).open_spec() == old(self).open_spec()
                    &&& final(self).listeners_spec() == old(self).listeners_spec()
                    &&& final(self).effects_spec() == if old(self).open_spec().contains(device)
                        && ticks > 0 {
                        without_effect(old(self).effects_spec(), effect).push(
                            Effect { effect, device, magnitude, ticks_left: ticks },
                        )
                    } else {
                        old(self).effects_spec()
                    }
                },
                Message::Stop { effect } => {
                    &&& final(self).open_spec() == old(self).open_spec()
                    &&& final(self).listeners_spec() == old(self).listeners_spec()
                    &&& final(self).effects_spec() == without_effect(old(self).effects_spec(), effect)
                },
            },
    {
        let ghost es0 = self.effects@;
        let ghost open0 = self.open@;
        match msg {
            Message::Open { id } => {
                if !self.is_open(id) {
                    self.open.push(id);
                }
                self.drop_device_effects(id);
                proof {
                    lemma_without_device_keeps(es0, id);
                    assert forall|i: int| 0 <= i < self.effects@.len() implies self.open@.contains(
                        (#[trigger] self.effects@[i]).device,
                    ) by {
                        let j = choose|j: int| 0 <= j < es0.len() && es0[j] == self.effects@[i];
                        assert(open0.contains(es0[j].device));
                        let k = choose|k: int| 0 <= k < open0.len() && open0[k] == es0[j].device;
                        assert(self.open@[k] == open0[k]);
                    }
                    if !open0.contains(id) {
                        assert forall|a: int, b: int|
                            0 <= a < self.open@.len() && 0 <= b < self.open@.len() && a != b
                                implies self.open@[a] != self.open@[b] by {
                            if a == open0.len() as int {
                                assert(!open0.contains(self.open@[b]) || self.open@[b] != id);
                            } else if b == open0.len() as int {
                                assert(self.open@[a] == open0[a]);
                            }
                        }
                    }
                }
            },
            Message::Close { id } => {
                self.drop_open(id);
                self.drop_device_effects(id);
                self.drop_listener(id);
                proof {
                    lemma_without_device_keeps(es0, id);
                    lemma_without_id_contains(open0, id, id);
                    assert forall|i: int| 0 <= i < self.effects@.len() implies self.open@.contains(
                        (#[trigger] self.effects@[i]).device,
                    ) by {
                        let d = self.effects@[i].device;
                        let j = choose|j: int| 0 <= j < es0.len() && es0[j] == self.effects@[i];
                        assert(open0.contains(es0[j].device));
                        lemma_without_id_contains(open0, id, d);
                    }
                }
            },
            Message::SetListenerPosition { id, position } => {
                if self.is_open(id) {
                    self.drop_listener(id);
                    self.listeners.push((id, position));
                }
            },
            Message::Play { effect, device, magnitude, ticks } => {
                if self.is_open(device) && ticks > 0 {
                    self.drop_effect(effect);
                    self.effects.push(Effect { effect, device, magnitude, ticks_left: ticks });
                    proof {
                        lemma_without_effect_keeps(es0, effect);
                        assert forall|i: int| 0 <= i < self.effects@.len() implies self.open@.contains(
                            (#[trigger] self.effects@[i]).device,
                        ) by {
                            if i < self.effects@.len() - 1 {
                                let j = choose|j: int|
                                    0 <= j < es0.len() && es0[j] == without_effect(es0, effect)[i];
                                assert(old(self).open_spec().contains(old(self).effects_spec()[j].device));
                            }
                        }
                    }
                }
            },
            Message::Stop { effect } => {
                self.drop_effect(effect);
                proof {
                    lemma_without_effect_keeps(es0, effect);
                    assert forall|i: int| 0 <= i < self.effects@.len() implies self.open@.contains(
                        (#[trigger] self.effects@[i]).device,
                    ) by {
                        let j = choose|j: int| 0 <= j < es0.len() && es0[j] == self.effects@[i];
                        assert(open0.contains(es0[j].device));
                    }
                }
            },
        }
    }

    /// One tick: the combined magnitude of every open device, in the order the devices were
    /// opened, for one hardware command each; then every effect plays one tick less and
    /// effects with no tick left are removed.
    pub fn tick(&mut self) -> (r: Vec<(usize, Magnitude)>)
        requires
            old(self).wf(),
        ensures
            final(self).wf(),
            r@.len() == old(self).open_spec().len(),
            forall|i: int|
                0 <= i < r@.len() ==> #[trigger] r@[i] == (
                    old(self).open_spec()[i],
                    combined_spec(old(self).effects_spec(), old(self).open_spec()[i]),
                ),
            final(self).effects_spec() == aged(old(self).effects_spec()),
            final(self).open_spec() == old(self).open_spec(),
            final(self).listeners_spec() == old(self).listeners_spec(),
    {
        let n = self.open.len();
        let mut out: Vec<(usize, Magnitude)> = Vec::new();
        let mut i: usize = 0;
        while i < n
            invariant
                n == self.open@.len(),
                self.effects@ == old(self).effects@,
                self.open@ == old(self).open@,
                self.listeners@ == old(self).listeners@,
                0 <= i <= n,
                out@.len() == i,
                forall|k: int|
                    0 <= k < i ==> #[trigger] out@[k] == (
                        self.open@[k],
                        combined_spec(self.effects@, self.open@[k]),
                    ),
            decreases n - i,
        {
            let d = self.open[i];
            let m = self.combined(d);
            out.push((d, m));
            i = i + 1;
        }
        let ghost es0 = self.effects@;
        let m = self.effects.len();
        let mut kept: Vec<Effect> = Vec::new();
        let mut k: usize = 0;
        while k < m
            invariant
                m == self.effects@.len(),
                self.effects@ == es0,
                0 <= k <= m,
                kept@ == aged(es0.subrange(0, k as int)),
            decreases m - k,
        {
            assert(es0.subrange(0, k + 1).drop_last() =~= es0.subrange(0, k as int));
            let e = self.effects[k];
            if e.ticks_left > 1 {
                kept.push(Effect { ticks_left: e.ticks_left - 1, ..e });
            }
            k = k + 1;
        }
        assert(es0.subrange(0, m as int) =~= es0);
        self.effects = kept;
        proof {
            lemma_aged_keeps_devices(es0);
            assert forall|i: int| 0 <= i < self.effects@.len() implies self.open@.contains(
                (#[trigger] self.effects@[i]).device,
            ) by {
                let j = choose|j: int| 0 <= j < es0.len() && self.effects@[i].device == es0[j].device;
                assert(old(self).open_spec().contains(old(self).effects_spec()[j].device));
            }
        }
        out
    }

    /// Combined magnitude of the active effects on `device`.
    pub fn combined(&self, device: usize) -> (r: Magnitude)
        ensures
            r == combined_spec(self.effects_spec(), device),
    {
        let n = self.effects.len();
        let mut strong: u16 = 0;
        let mut weak: u16 = 0;
        let mut i: usize = 0;
        while i < n
            invariant
                n == self.effects@.len(),
                0 <= i <= n,
                strong == cap(strong_sum(self.effects@.subrange(0, i as int), device)),
                weak == cap(weak_sum(self.effects@.subrange(0, i as int), device)),
            decreases n - i,
        {
            let e = self.effects[i];
            proof {
                let pre = self.effects@.subrange(0, i as int);
                assert(self.effects@.subrange(0, i + 1).drop_last() =~= pre);
                lemma_sums_nonneg(pre, device);
            }
            if e.device == device {
                strong = strong.saturating_add(e.magnitude.strong);
                weak = weak.saturating_add(e.magnitude.weak);
            }
            i = i + 1;
        }
        assert(self.effects@.subrange(0, n as int) =~= self.effects@);
        Magnitude { strong, weak }
    }
}

} // verus!
