use hid_over_ip::client::{key_codes, relative_axes, Replay};
use hid_over_ip::event::{InputEvent, EV_KEY, EV_REL, EV_SYN};

fn syn() -> InputEvent {
    InputEvent::new(EV_SYN, 0, 0)
}

#[test]
fn replay_batches_at_reports() {
    let mut replay = Replay::new();
    let down = InputEvent::new(EV_KEY, 30, 1);
    let up = InputEvent::new(EV_KEY, 30, 0);
    assert_eq!(replay.on_event(down), None);
    assert_eq!(replay.on_event(syn()), Some(vec![down]));
    assert_eq!(replay.on_event(up), None);
    assert_eq!(replay.on_event(syn()), Some(vec![up]));
    // the connection closes: nothing is held
    assert_eq!(replay.cleanup(), vec![]);
}

#[test]
fn stuck_key_is_released_at_cleanup() {
    let mut replay = Replay::new();
    assert_eq!(replay.on_event(InputEvent::new(EV_KEY, 30, 1)), None);
    assert_eq!(replay.on_event(syn()), Some(vec![InputEvent::new(EV_KEY, 30, 1)]));
    assert_eq!(replay.cleanup(), vec![InputEvent::new(EV_KEY, 30, 0)]);
    assert_eq!(replay.cleanup(), vec![]);
}

#[test]
fn each_held_key_is_released_once() {
    let mut replay = Replay::new();
    for e in [
        InputEvent::new(EV_KEY, 42, 1),
        InputEvent::new(EV_KEY, 30, 1),
        InputEvent::new(EV_KEY, 30, 2),
        InputEvent::new(EV_KEY, 31, 1),
        InputEvent::new(EV_KEY, 31, 0),
        InputEvent::new(EV_REL, 0, 3),
    ] {
        replay.on_event(e);
    }
    let mut released = replay.cleanup();
    released.sort_by_key(|e| e.code);
    assert_eq!(
        released,
        vec![InputEvent::new(EV_KEY, 30, 0), InputEvent::new(EV_KEY, 42, 0)]
    );
}

#[test]
fn report_with_nonzero_value_is_batched() {
    let mut replay = Replay::new();
    let odd = InputEvent::new(EV_SYN, 0, 1);
    let dropped = InputEvent::new(EV_SYN, 3, 0);
    assert_eq!(replay.on_event(odd), None);
    assert_eq!(replay.on_event(dropped), None);
    assert_eq!(replay.on_event(syn()), Some(vec![odd, dropped]));
    assert_eq!(replay.on_event(syn()), Some(vec![]));
}

#[test]
fn cleanup_drops_pending_events() {
    let mut replay = Replay::new();
    replay.on_event(InputEvent::new(EV_REL, 0, 3));
    assert_eq!(replay.cleanup(), vec![]);
    assert_eq!(replay.on_event(syn()), Some(vec![]));
}

#[test]
fn device_capabilities() {
    let keys = key_codes();
    assert_eq!(keys.len(), 560);
    assert_eq!(keys[0], 0);
    assert_eq!(keys[559], 559);
    assert_eq!(relative_axes(false), (0..=10).collect::<Vec<u16>>());
    assert_eq!(relative_axes(true), (0..=12).collect::<Vec<u16>>());
}
