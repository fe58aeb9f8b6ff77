//! The receiving side's replay of one connection: events are grouped up to
//! each synchronization report, and keys still held when the connection ends
//! are released.
use vstd::prelude::*;
use vstd::std_specs::iter::IteratorSpec;

use std::collections::BTreeSet;

use crate::event::{InputEvent, EV_KEY, EV_SYN, SYN_REPORT};

verus! {

/// The keys held after one more event: a key event with value zero releases
/// its key, any other key event presses it.
pub open spec fn press_step(pressed: Set<u16>, e: InputEvent) -> Set<u16> {
    if e.is_key() {
        if e.value == 0 {
            pressed.remove(e.code)
        } else {
            pressed.insert(e.code)
        }
    } else {
        pressed
    }
}

/// The keys held after the events.
pub open spec fn pressed_after(pressed: Set<u16>, events: Seq<InputEvent>) -> Set<u16>
    decreases events.len(),
{
    if events.len() == 0 {
        pressed
    } else {
        press_step(pressed_after(pressed, events.drop_last()), events.last())
    }
}

/// Event `i` is a key event of `key`.
pub open spec fn touches(events: Seq<InputEvent>, i: int, key: u16) -> bool {
    events[i].is_key() && events[i].code == key
}

/// `key` was seen pressed and not released since: its last key event has a
/// nonzero value.
pub open spec fn held(events: Seq<InputEvent>, key: u16) -> bool {
    exists|i: int|
        0 <= i < events.len() && #[trigger] touches(events, i, key) && events[i].value != 0
            && forall|j: int| i < j < events.len() ==> !#[trigger] touches(events, j, key)
}

/// The key-up event of `key`.
pub open spec fn key_up(key: u16) -> InputEvent {
    InputEvent { event_type: EV_KEY, code: key, value: 0 }
}

/// What a connection's replay holds: the keys pressed, and the events since
/// the last report.
pub struct ReplayState {
    pub pressed: Set<u16>,
    pub batch: Seq<InputEvent>,
}

/// After a connection's events, the keys that the replay holds, and so
/// releases at its end, are exactly those seen pressed and not released.
pub proof fn lemma_pressed_are_held(events: Seq<InputEvent>)
    ensures
        pressed_after(Set::empty(), events) == Set::new(|k: u16| held(events, k)),
    decreases events.len(),
{
    let n = events.len() as int;
    if n == 0 {
        assert(pressed_after(Set::empty(), events) =~= Set::new(|k: u16| held(events, k)));
    } else {
        let prev = events.drop_last();
        lemma_pressed_are_held(prev);
        let e = events.last();
        assert forall|k: u16| #[trigger] held(events, k) == (if e.is_key() && e.code == k {
            e.value != 0
        } else {
            held(prev, k)
        }) by {
            if e.is_key() && e.code == k {
                if e.value != 0 {
                    assert(touches(events, n - 1, k));
                } else if held(events, k) {
                    let i = choose|i: int|
                        0 <= i < events.len() && #[trigger] touches(events, i, k) && events[i].value
                            != 0 && forall|j: int|
                            i < j < events.len() ==> !#[trigger] touches(events, j, k);
                    assert(touches(events, n - 1, k));
                }
            } else {
                assert(!touches(events, n - 1, k));
                if held(events, k) {
                    let i = choose|i: int|
                        0 <= i < events.len() && #[trigger] touches(events, i, k) && events[i].value
                            != 0 && forall|j: int|
                            i < j < events.len() ==> !#[trigger] touches(events, j, k);
                    assert(touches(prev, i, k));
                    assert forall|j: int| i < j < prev.len() implies !#[trigger] touches(prev, j, k) by {
                        assert(!touches(events, j, k));
                    }
                }
                if held(prev, k) {
                    let i = choose|i: int|
                        0 <= i < prev.len() && #[trigger] touches(prev, i, k) && prev[i].value != 0
                            && forall|j: int| i < j < prev.len() ==> !#[trigger] touches(prev, j, k);
                    assert(touches(events, i, k));
                    assert forall|j: int| i < j < events.len() implies !#[trigger] touches(
                        events,
                        j,
                        k,
                    ) by {
                        if j < n - 1 {
                            assert(!touches(prev, j, k));
                        }
                    }
                }
            }
        }
        assert(pressed_after(Set::empty(), events) =~= Set::new(|k: u16| held(events, k)));
    }
}

/// The virtual device declares the key codes below this bound.
pub const KEY_CODE_COUNT: u16 = 560;

/// The relative axes through the wheel axes: X, Y, Z, RX, RY, RZ, HWHEEL,
/// DIAL, WHEEL, MISC and RESERVED.
pub const RELATIVE_AXIS_COUNT: u16 = 11;

/// With high-resolution scrolling, also WHEEL_HI_RES and HWHEEL_HI_RES.
pub const RELATIVE_AXIS_COUNT_HI_RES: u16 = 13;

fn codes_below(n: u16) -> (r: Vec<u16>)
    ensures
        r@.len() == n,
        forall|i: int| 0 <= i < n ==> r@[i] == i,
{
    let mut r: Vec<u16> = Vec::new();
    let mut i: u16 = 0;
    while i < n
        invariant
            i <= n,
            r@.len() == i,
            forall|j: int| 0 <= j < i ==> r@[j] == j,
        decreases n - i,
    {
        r.push(i);
        i += 1;
    }
    r
}

/// The key codes that the virtual device declares: every code below
/// `KEY_CODE_COUNT`.
pub fn key_codes() -> (r: Vec<u16>)
    ensures
        r@.len() == KEY_CODE_COUNT,
        forall|i: int| 0 <= i < KEY_CODE_COUNT ==> r@[i] == i,
{
    codes_below(KEY_CODE_COUNT)
}

/// The relative axis codes that the virtual device declares.
pub fn relative_axes(high_res_scroll: bool) -> (r: Vec<u16>)
    ensures
        r@.len() == if high_res_scroll {
            RELATIVE_AXIS_COUNT_HI_RES
        } else {
            RELATIVE_AXIS_COUNT
        },
        forall|i: int| 0 <= i < r@.len() ==> r@[i] == i,
{
    if high_res_scroll {
        codes_below(RELATIVE_AXIS_COUNT_HI_RES)
    } else {
        codes_below(RELATIVE_AXIS_COUNT)
    }
}

/// Replays the events of one connection.
pub struct Replay {
    batch: Vec<InputEvent>,
    pressed_keys: BTreeSet<u16>,
}

impl View for Replay {
    type V = ReplayState;

    closed spec fn view(&self) -> ReplayState {
        ReplayState { pressed: self.pressed_keys@, batch: self.batch@ }
    }
}

impl Replay {
    /// A replay with no key held and nothing pending.
    pub fn new() -> (r: Replay)
        ensures
            r@.pressed == Set::<u16>::empty(),
            r@.batch == Seq::<InputEvent>::empty(),
    {
        Replay { batch: Vec::new(), pressed_keys: BTreeSet::new() }
    }

    /// Takes one received event. A report (synchronization, code report,
    /// value zero) hands back the events pending since the previous one, to
    /// be emitted together; any other event becomes pending. Key events
    /// update the held keys.
    pub fn on_event(&mut self, e: InputEvent) -> (r: Option<Vec<InputEvent>>)
        ensures
            final(self)@.pressed == press_step(old(self)@.pressed, e),
            e.is_report() ==> r is Some && r->0@ == old(self)@.batch && final(self)@.batch
                == Seq::<InputEvent>::empty(),
            !e.is_report() ==> r is None && final(self)@.batch == old(self)@.batch.push(e),
    {
        if e.event_type == EV_KEY {
            if e.value == 0 {
                self.pressed_keys.remove(&e.code);
            } else {
                self.pressed_keys.insert(e.code);
            }
        }
        if e.event_type == EV_SYN && e.code == SYN_REPORT && e.value == 0 {
            let mut out: Vec<InputEvent> = Vec::new();
            std::mem::swap(&mut self.batch, &mut out);
            Some(out)
        } else {
            self.batch.push(e);
            None
        }
    }

    /// Ends the connection: returns one key-up event for each held key, each
    /// key once, and forgets the held keys and the pending events.
    pub fn cleanup(&mut self) -> (r: Vec<InputEvent>)
        ensures
            final(self)@.pressed == Set::<u16>::empty(),
            final(self)@.batch == Seq::<InputEvent>::empty(),
            r@.len() == old(self)@.pressed.len(),
            forall|i: int| 0 <= i < r@.len() ==> #[trigger] r@[i] == key_up(r@[i].code),
            forall|i: int, j: int| 0 <= i < j < r@.len() ==> r@[i].code != r@[j].code,
            forall|k: u16|
                old(self)@.pressed.contains(k) <==> exists|i: int|
                    0 <= i < r@.len() && #[trigger] r@[i].code == k,
    {
        let ghost keys = self.pressed_keys@;
        let mut evts: Vec<InputEvent> = Vec::new();
        let iter = self.pressed_keys.iter();
        let ghost order = IteratorSpec::remaining(&iter).unref();
        assert(order.to_set() == keys && order.no_duplicates() && order.len() == keys.len());
        let ghost mut n: int = 0;
        for k in it: iter
            invariant
                n == it.index(),
                it.seq().unref() == order,
                evts@.len() == n,
                forall|i: int| 0 <= i < n ==> #[trigger] evts@[i] == key_up(order[i]),
        {
            assert(*k == order[n]);
            evts.push(InputEvent { event_type: EV_KEY, code: *k, value: 0 });
            proof {
                n = n + 1;
            }
        }
        proof {
            assert(n == order.len());
            assert forall|k: u16| keys.contains(k) implies exists|i: int|
                0 <= i < evts@.len() && #[trigger] evts@[i].code == k by {
                assert(order.to_set().contains(k));
                let i = choose|i: int| 0 <= i < order.len() && order[i] == k;
                assert(evts@[i].code == k);
            }
            assert forall|k: u16|
                (exists|i: int| 0 <= i < evts@.len() && #[trigger] evts@[i].code == k) implies keys.contains(
                k,
            ) by {
                let i = choose|i: int| 0 <= i < evts@.len() && #[trigger] evts@[i].code == k;
                assert(order.to_set().contains(order[i]));
            }
            assert forall|i: int, j: int| 0 <= i < j < evts@.len() implies evts@[i].code
                != evts@[j].code by {
                assert(evts@[i] == key_up(order[i]));
                assert(evts@[j] == key_up(order[j]));
            }
        }
        self.pressed_keys.clear();
        self.batch.clear();
        evts
    }
}

} // verus!
