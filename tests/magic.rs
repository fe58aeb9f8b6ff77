use hid_over_ip::event::{InputEvent, EV_KEY, EV_REL, EV_SYN};
use hid_over_ip::magic::{Error, Magic};

const KEY_1: u16 = 2;
const KEY_2: u16 = 3;
const KEY_3: u16 = 4;
const KEY_4: u16 = 5;
const KEY_A: u16 = 30;

fn key(code: u16, value: i32) -> InputEvent {
    InputEvent::new(EV_KEY, code, value)
}

#[test]
fn test_wait() {
    let magic_key = [KEY_1, KEY_2, KEY_3, KEY_4];
    let stream = [
        key(KEY_1, 1),
        key(KEY_2, 1),
        key(KEY_3, 1),
        key(KEY_4, 1),
        key(KEY_1, 0),
        key(KEY_2, 0),
        key(KEY_3, 0),
        key(KEY_4, 0),
    ];
    assert_eq!(Magic::wait(&magic_key, &stream), Some(8), "Is OK");
    let stream = [
        key(KEY_1, 1),
        key(KEY_2, 1),
        key(KEY_3, 1),
        key(KEY_4, 1),
        // one key is still pressed
        key(KEY_2, 0),
        key(KEY_3, 0),
        key(KEY_4, 0),
    ];
    assert_eq!(Magic::wait(&magic_key, &stream), None, "Is timeout");
    // no key pressed
    assert_eq!(Magic::wait(&magic_key, &[]), None, "Is timeout");
}

#[test]
fn chord_fires_once_on_last_release() {
    let mut magic = Magic::from_iter(&[KEY_1, KEY_2, KEY_3, KEY_4]);
    let seq = [
        (KEY_1, 1),
        (KEY_2, 1),
        (KEY_3, 1),
        (KEY_4, 1),
        (KEY_1, 0),
        (KEY_2, 0),
        (KEY_3, 0),
        (KEY_4, 0),
    ];
    let fired: Vec<bool> = seq.iter().map(|&(k, v)| magic.key(k, v)).collect();
    assert_eq!(fired, vec![false, false, false, false, false, false, false, true]);
    // a second release does not fire again
    assert!(!magic.key(KEY_4, 0));
}

#[test]
fn release_without_full_press_does_not_fire() {
    let mut magic = Magic::from_iter(&[KEY_1, KEY_2]);
    assert!(!magic.key(KEY_1, 1));
    assert!(!magic.key(KEY_1, 0));
    assert!(!magic.key(KEY_2, 1));
    assert!(!magic.key(KEY_2, 0));
}

#[test]
fn autorepeat_counts_as_down() {
    let mut magic = Magic::from_iter(&[KEY_1, KEY_2]);
    assert!(!magic.key(KEY_1, 1));
    assert!(!magic.key(KEY_2, 2));
    assert!(!magic.key(KEY_1, 2));
    assert!(!magic.key(KEY_1, 0));
    assert!(magic.key(KEY_2, 0));
}

#[test]
fn other_keys_do_not_matter() {
    let mut magic = Magic::from_iter(&[KEY_1, KEY_2]);
    assert!(!magic.key(KEY_1, 1));
    assert!(!magic.key(KEY_A, 1));
    assert!(!magic.key(KEY_2, 1));
    assert!(!magic.key(KEY_A, 0));
    assert!(!magic.key(KEY_1, 0));
    assert!(!magic.key(KEY_A, 1));
    assert!(magic.key(KEY_2, 0));
}

#[test]
fn duplicate_chord_keys_count_once() {
    let mut magic = Magic::from_iter(&[KEY_1, KEY_1]);
    assert!(!magic.key(KEY_1, 1));
    assert!(magic.key(KEY_1, 0));
}

#[test]
fn empty_chord_never_fires() {
    let mut magic = Magic::from_iter(&[]);
    assert!(!magic.key(KEY_1, 1));
    assert!(!magic.key(KEY_1, 0));
}

#[test]
fn map_event_marks_the_firing_event() {
    let mut magic = Magic::from_iter(&[KEY_1]);
    let down = key(KEY_1, 1);
    let syn = InputEvent::new(EV_SYN, 0, 0);
    let rel = InputEvent::new(EV_REL, 0, 5);
    assert!(matches!(magic.map_event::<&str>(Ok(down)), Ok(e) if e == down));
    assert!(matches!(magic.map_event::<&str>(Ok(syn)), Ok(e) if e == syn));
    assert!(matches!(magic.map_event::<&str>(Ok(rel)), Ok(e) if e == rel));
    assert!(matches!(magic.map_event::<&str>(Err("broken")), Err(Error::Other("broken"))));
    assert!(matches!(magic.map_event::<&str>(Ok(key(KEY_1, 0))), Err(Error::MagicKey)));
}

#[test]
fn map_event_ignores_non_key_events_with_chord_codes() {
    let mut magic = Magic::from_iter(&[KEY_1]);
    assert!(matches!(magic.map_event::<()>(Ok(key(KEY_1, 1))), Ok(_)));
    // a relative event whose code equals the chord key is not a key event
    assert!(matches!(magic.map_event::<()>(Ok(InputEvent::new(EV_REL, KEY_1, 0))), Ok(_)));
    assert!(matches!(magic.map_event::<()>(Ok(key(KEY_1, 0))), Err(Error::MagicKey)));
}

#[test]
fn error_from_wraps_other() {
    let e: Error<u32> = Error::from(7);
    assert!(matches!(e, Error::Other(7)));
}
