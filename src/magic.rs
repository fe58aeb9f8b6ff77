//! The magic chord: a set of keys whose full press and full release toggles
//! forwarding.
use vstd::prelude::*;
use vstd::std_specs::iter::IteratorSpec;

use std::collections::BTreeMap;

use crate::event::{InputEvent, EV_KEY};

verus! {

/// An item of an event stream that went through the chord detector: the
/// chord fired, or the stream's own error.
pub enum Error<E> {
    MagicKey,
    Other(E),
}

impl<E> From<E> for Error<E> {
    fn from(error: E) -> (r: Self)
        ensures
            r == Error::<E>::Other(error),
    {
        Error::Other(error)
    }
}

impl<E> vstd::std_specs::convert::FromSpecImpl<E> for Error<E> {
    open spec fn obeys_from_spec() -> bool {
        true
    }

    open spec fn from_spec(v: E) -> Self {
        Error::Other(v)
    }
}

/// What the detector knows: the last value of each chord key, and whether
/// the whole chord has been down since it last fired.
pub struct ChordState {
    pub down: Map<u16, i32>,
    pub armed: bool,
}

/// Every chord key is down (nonzero).
pub open spec fn all_down(down: Map<u16, i32>) -> bool {
    forall|k: u16| down.contains_key(k) ==> down[k] != 0
}

/// Every chord key is up (zero).
pub open spec fn all_up(down: Map<u16, i32>) -> bool {
    forall|k: u16| down.contains_key(k) ==> down[k] == 0
}

/// The detector before any event: every chord key up, not armed.
pub open spec fn chord_start(keys: Seq<u16>) -> ChordState {
    ChordState { down: Map::new(|k: u16| keys.contains(k), |k: u16| 0i32), armed: false }
}

/// One key event: the next state, and whether the chord fires.
pub open spec fn chord_step(s: ChordState, key: u16, value: i32) -> (ChordState, bool) {
    if !s.down.contains_key(key) {
        (s, false)
    } else {
        let down = s.down.insert(key, value);
        if s.armed && all_up(down) {
            (ChordState { down, armed: false }, true)
        } else {
            (ChordState { down, armed: s.armed || all_down(down) }, false)
        }
    }
}

/// One event of any type: only key events reach the chord.
pub open spec fn chord_event(s: ChordState, e: InputEvent) -> (ChordState, bool) {
    if e.is_key() {
        chord_step(s, e.code, e.value)
    } else {
        (s, false)
    }
}

/// The state after the events.
pub open spec fn chord_run(s: ChordState, events: Seq<InputEvent>) -> ChordState
    decreases events.len(),
{
    if events.len() == 0 {
        s
    } else {
        chord_event(chord_run(s, events.drop_last()), events.last()).0
    }
}

/// Whether the chord fires on event `n`.
pub open spec fn chord_fires_at(s: ChordState, events: Seq<InputEvent>, n: int) -> bool {
    chord_event(chord_run(s, events.take(n)), events[n]).1
}

/// The chord fires on no event before `n`.
pub open spec fn chord_silent_before(s: ChordState, events: Seq<InputEvent>, n: int) -> bool {
    forall|j: int| 0 <= j < n ==> !#[trigger] chord_fires_at(s, events, j)
}

/// Events of keys outside the chord, and events that are no key events,
/// leave the detector as it was and never fire it.
pub proof fn lemma_chord_ignores_other_keys(s: ChordState, e: InputEvent)
    requires
        !e.is_key() || !s.down.contains_key(e.code),
    ensures
        chord_event(s, e) == (s, false),
{
}

proof fn lemma_down_excludes_up(down: Map<u16, i32>, k: u16)
    requires
        down.contains_key(k),
    ensures
        !(all_down(down) && all_up(down)),
{
    if all_down(down) {
        assert(down[k] != 0);
    }
}

proof fn lemma_run_push(s: ChordState, events: Seq<InputEvent>, n: int)
    requires
        0 <= n < events.len(),
    ensures
        chord_run(s, events.take(n + 1)) == chord_event(chord_run(s, events.take(n)), events[n]).0,
{
    assert(events.take(n + 1).drop_last() =~= events.take(n));
}

/// The detector's keys stay the chord's keys.
proof fn lemma_run_keys(keys: Seq<u16>, events: Seq<InputEvent>, n: int)
    requires
        0 <= n <= events.len(),
    ensures
        chord_run(chord_start(keys), events.take(n)).down.dom() == chord_start(keys).down.dom(),
    decreases n,
{
    if n > 0 {
        lemma_run_keys(keys, events, n - 1);
        lemma_run_push(chord_start(keys), events, n - 1);
    }
}

/// Some state up to `n` had the whole chord down, and no state after it had
/// the whole chord up.
pub open spec fn pressed_since(s: ChordState, events: Seq<InputEvent>, n: int) -> bool {
    exists|i: int|
        0 <= i <= n && all_down(#[trigger] chord_run(s, events.take(i)).down) && forall|j: int|
            i < j <= n ==> !all_up(#[trigger] chord_run(s, events.take(j)).down)
}

proof fn lemma_armed_iff_pressed(keys: Seq<u16>, events: Seq<InputEvent>, n: int)
    requires
        keys.len() > 0,
        0 <= n <= events.len(),
    ensures
        chord_run(chord_start(keys), events.take(n)).armed <==> pressed_since(
            chord_start(keys),
            events,
            n,
        ),
    decreases n,
{
    let s0 = chord_start(keys);
    let st = |i: int| chord_run(s0, events.take(i));
    assert(keys.contains(keys[0]));
    assert(s0.down.contains_key(keys[0]));
    lemma_run_keys(keys, events, n);
    if n == 0 {
        assert(events.take(0) =~= Seq::<InputEvent>::empty());
        assert(keys.contains(keys[0]));
        assert(chord_run(s0, events.take(0)) == s0);
        assert(!all_down(s0.down)) by {
            assert(s0.down[keys[0]] == 0);
        }
        if pressed_since(s0, events, 0) {
            let i = choose|i: int|
                0 <= i <= 0 && all_down(#[trigger] chord_run(s0, events.take(i)).down) && forall|
                    j: int,
                | i < j <= 0 ==> !all_up(#[trigger] chord_run(s0, events.take(j)).down);
            assert(i == 0);
        }
    } else {
        lemma_armed_iff_pressed(keys, events, n - 1);
        lemma_run_push(s0, events, n - 1);
        lemma_run_keys(keys, events, n - 1);
        let prev = st(n - 1);
        let cur = st(n);
        // with a nonempty chord, all down and all up exclude each other
        assert(prev.down.contains_key(keys[0]));
        assert(cur.down.contains_key(keys[0]));
        lemma_down_excludes_up(prev.down, keys[0]);
        lemma_down_excludes_up(cur.down, keys[0]);
        if pressed_since(s0, events, n - 1) && !all_up(cur.down) {
            let i = choose|i: int|
                0 <= i <= n - 1 && all_down(#[trigger] chord_run(s0, events.take(i)).down)
                    && forall|j: int|
                    i < j <= n - 1 ==> !all_up(#[trigger] chord_run(s0, events.take(j)).down);
            assert forall|j: int| i < j <= n implies !all_up(
                #[trigger] chord_run(s0, events.take(j)).down,
            ) by {
                if j == n {
                    assert(chord_run(s0, events.take(j)) == cur);
                }
            }
            assert(pressed_since(s0, events, n));
        }
        if all_down(cur.down) {
            assert(all_down(chord_run(s0, events.take(n)).down));
            assert(pressed_since(s0, events, n));
        }
        if pressed_since(s0, events, n) {
            let i = choose|i: int|
                0 <= i <= n && all_down(#[trigger] chord_run(s0, events.take(i)).down) && forall|
                    j: int,
                | i < j <= n ==> !all_up(#[trigger] chord_run(s0, events.take(j)).down);
            if i < n {
                assert(!all_up(chord_run(s0, events.take(n)).down));
                assert(forall|j: int|
                    i < j <= n - 1 ==> !all_up(#[trigger] chord_run(s0, events.take(j)).down));
                assert(pressed_since(s0, events, n - 1));
            }
        }
        let e = events[n - 1];
        // a chord key event arms exactly as (armed && !all_up') || all_down';
        // any other event leaves the state as it was
        if !(e.is_key() && prev.down.contains_key(e.code)) {
            assert(cur == prev);
            // the state did not move: an earlier full press carries over
            if pressed_since(s0, events, n - 1) {
                let i = choose|i: int|
                    0 <= i <= n - 1 && all_down(#[trigger] chord_run(s0, events.take(i)).down)
                        && forall|j: int|
                        i < j <= n - 1 ==> !all_up(#[trigger] chord_run(s0, events.take(j)).down);
                if i < n - 1 {
                    assert(!all_up(chord_run(s0, events.take(n - 1)).down));
                } else {
                    assert(all_down(prev.down));
                }
                assert(!all_up(cur.down));
            }
        }
    }
}

/// The chord fires on an event exactly when the event is a key event of the
/// chord that leaves every chord key up, and since some moment when every
/// chord key was down, the chord was never fully up before.
pub proof fn lemma_chord_fires_iff(keys: Seq<u16>, events: Seq<InputEvent>, n: int)
    requires
        keys.len() > 0,
        0 <= n < events.len(),
    ensures
        chord_fires_at(chord_start(keys), events, n) <==> {
            &&& events[n].is_key()
            &&& keys.contains(events[n].code)
            &&& all_up(chord_run(chord_start(keys), events.take(n + 1)).down)
            &&& pressed_since(chord_start(keys), events, n)
        },
{
    let s0 = chord_start(keys);
    lemma_armed_iff_pressed(keys, events, n);
    lemma_run_push(s0, events, n);
    lemma_run_keys(keys, events, n);
    let prev = chord_run(s0, events.take(n));
    let cur = chord_run(s0, events.take(n + 1));
    assert(keys.contains(keys[0]));
    assert(prev.down.contains_key(keys[0]));
    lemma_down_excludes_up(prev.down, keys[0]);
    if pressed_since(s0, events, n) && events[n].is_key() && keys.contains(events[n].code)
        && all_up(cur.down) {
        let i = choose|i: int|
            0 <= i <= n && all_down(#[trigger] chord_run(s0, events.take(i)).down) && forall|j: int|
                i < j <= n ==> !all_up(#[trigger] chord_run(s0, events.take(j)).down);
        assert(prev.armed);
    }
}

/// Watches key events for the chord.
#[derive(Debug)]
pub struct Magic {
    keys: BTreeMap<u16, i32>,
    armed: bool,
}

impl View for Magic {
    type V = ChordState;

    closed spec fn view(&self) -> ChordState {
        ChordState { down: self.keys@, armed: self.armed }
    }
}

impl Magic {
    /// A detector for the chord of `keys`, every key up.
    pub fn from_iter(keys: &[u16]) -> (r: Magic)
        ensures
            r@ == chord_start(keys@),
    {
        let mut map: BTreeMap<u16, i32> = BTreeMap::new();
        let mut i: usize = 0;
        while i < keys.len()
            invariant
                i <= keys@.len(),
                map@ == Map::new(|k: u16| keys@.take(i as int).contains(k), |k: u16| 0i32),
            decreases keys@.len() - i,
        {
            let ghost before = map@;
            map.insert(keys[i], 0);
            proof {
                let prev = keys@.take(i as int);
                assert(keys@.take(i + 1) =~= prev.push(keys@[i as int]));
                assert(map@ == before.insert(keys@[i as int], 0i32));
                assert forall|k: u16| #[trigger] keys@.take(i + 1).contains(k) <==> (prev.contains(k)
                    || k == keys@[i as int]) by {
                    let next = keys@.take(i + 1);
                    if next.contains(k) {
                        let j = choose|j: int| 0 <= j < i + 1 && next[j] == k;
                        if j < i {
                            assert(prev[j] == k);
                        }
                    }
                    if prev.contains(k) {
                        let j = choose|j: int| 0 <= j < i && prev[j] == k;
                        assert(keys@.take(i + 1)[j] == k);
                    }
                    if k == keys@[i as int] {
                        assert(keys@.take(i + 1)[i as int] == k);
                    }
                }
                assert(map@ =~= Map::new(
                    |k: u16| keys@.take(i + 1).contains(k),
                    |k: u16| 0i32,
                ));
            }
            i += 1;
        }
        assert(keys@.take(keys@.len() as int) =~= keys@);
        let r = Magic { keys: map, armed: false };
        assert(r@.down =~= chord_start(keys@).down);
        r
    }

    /// Whether every value in the map satisfies `up` (zero) or, with `up`
    /// false, is nonzero.
    fn all_values(&self, up: bool) -> (r: bool)
        ensures
            up ==> (r == all_up(self@.down)),
            !up ==> (r == all_down(self@.down)),
    {
        let ghost m = self.keys@;
        let values = self.keys.values();
        let ghost key_seq = choose|key_seq: Seq<u16>|
            {
                &&& key_seq.to_set() == m.dom()
                &&& key_seq.no_duplicates()
                &&& IteratorSpec::remaining(&values) == key_seq.map(|i: int, k: u16| &m[k])
            };
        let mut r = true;
        let ghost mut n: int = 0;
        for v in it: values
            invariant
                n == it.index(),
                it.seq() == key_seq.map(|i: int, k: u16| &m[k]),
                r <==> forall|i: int| 0 <= i < n ==> ((m[key_seq[i]] == 0) == up),
        {
            assert(*v == m[key_seq[n]]);
            if (*v == 0) != up {
                r = false;
            }
            proof {
                n = n + 1;
            }
        }
        proof {
            assert(n == key_seq.len());
            let pred = |x: i32| (x == 0) == up;
            assert forall|k: u16| m.contains_key(k) && r implies pred(m[k]) by {
                assert(key_seq.to_set().contains(k));
                let i = choose|i: int| 0 <= i < key_seq.len() && key_seq[i] == k;
            }
            if !r {
                let i = choose|i: int| 0 <= i < n && !((m[key_seq[i]] == 0) == up);
                let k = key_seq[i];
                assert(key_seq.to_set().contains(k));
                assert(m.contains_key(k) && !pred(m[k]));
            }
        }
        r
    }

    /// Records that `key_code` now has `value`; returns whether the chord
    /// fires, that is the whole chord was down and is now all up again.
    /// Keys outside the chord change nothing.
    pub fn key(&mut self, key_code: u16, value: i32) -> (r: bool)
        ensures
            (final(self)@, r) == chord_step(old(self)@, key_code, value),
    {
        if self.keys.contains_key(&key_code) {
            self.keys.insert(key_code, value);
            if self.armed && self.all_values(true) {
                self.armed = false;
                return true;
            }
            self.armed = self.armed || self.all_values(false);
        }
        false
    }

    /// Passes one item of an event stream through the detector: a key event
    /// that fires the chord becomes `Error::MagicKey`, an error of the stream
    /// becomes `Error::Other`, any other event passes unchanged.
    pub fn map_event<E>(&mut self, evt: Result<InputEvent, E>) -> (r: Result<InputEvent, Error<E>>)
        ensures
            match evt {
                Ok(e) => {
                    &&& final(self)@ == chord_event(old(self)@, e).0
                    &&& r == if chord_event(old(self)@, e).1 {
                        Err::<InputEvent, Error<E>>(Error::MagicKey)
                    } else {
                        Ok(e)
                    }
                },
                Err(x) => final(self)@ == old(self)@ && r == Err::<InputEvent, Error<E>>(
                    Error::Other(x),
                ),
            },
    {
        match evt {
            Ok(e) => {
                if e.event_type == EV_KEY && self.key(e.code, e.value) {
                    Err(Error::MagicKey)
                } else {
                    Ok(e)
                }
            },
            Err(x) => Err(Error::Other(x)),
        }
    }

    /// Consumes `events` until the chord of `magic_key` fires; returns how
    /// many were consumed, or `None` where it never fires among them.
    pub fn wait(magic_key: &[u16], events: &[InputEvent]) -> (r: Option<usize>)
        ensures
            match r {
                Some(n) => {
                    &&& 1 <= n <= events@.len()
                    &&& chord_fires_at(chord_start(magic_key@), events@, n - 1)
                    &&& chord_silent_before(chord_start(magic_key@), events@, n - 1)
                },
                None => chord_silent_before(chord_start(magic_key@), events@, events@.len() as int),
            },
    {
        let ghost s0 = chord_start(magic_key@);
        let mut magic = Magic::from_iter(magic_key);
        let mut i: usize = 0;
        while i < events.len()
            invariant
                i <= events@.len(),
                s0 == chord_start(magic_key@),
                magic@ == chord_run(s0, events@.take(i as int)),
                chord_silent_before(s0, events@, i as int),
            decreases events@.len() - i,
        {
            let e = events[i];
            proof {
                lemma_run_push(s0, events@, i as int);
            }
            if e.event_type == EV_KEY && magic.key(e.code, e.value) {
                return Some(i + 1);
            }
            i += 1;
        }
        None
    }
}

} // verus!
