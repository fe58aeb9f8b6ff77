use hid_over_ip::codec::Codec;
use hid_over_ip::event::InputEvent;
use tokio_util::bytes::BytesMut;

#[test]
fn encode_key_press() {
    let mut buf = BytesMut::new();
    Codec.encode(InputEvent::new(1, 30, 1), &mut buf);
    assert_eq!(&buf[..], &[0x00, 0x01, 0x00, 0x1E, 0x00, 0x00, 0x00, 0x01]);
}

#[test]
fn encode_negative_value() {
    let mut buf = BytesMut::new();
    Codec.encode(InputEvent::new(2, 8, -2), &mut buf);
    assert_eq!(&buf[..], &[0x00, 0x02, 0x00, 0x08, 0xFF, 0xFF, 0xFF, 0xFE]);
}

#[test]
fn encode_appends() {
    let mut buf = BytesMut::from(&[0xAAu8][..]);
    Codec.encode(InputEvent::new(0x1234, 0x5678, 0x0A0B0C0D), &mut buf);
    assert_eq!(&buf[..], &[0xAA, 0x12, 0x34, 0x56, 0x78, 0x0A, 0x0B, 0x0C, 0x0D]);
}

#[test]
fn decode_round_trip() {
    let events = [
        InputEvent::new(0, 0, 0),
        InputEvent::new(u16::MAX, u16::MAX, i32::MIN),
        InputEvent::new(1, 30, i32::MAX),
        InputEvent::new(2, 11, -120),
    ];
    let mut buf = BytesMut::new();
    for e in events {
        Codec.encode(e, &mut buf);
    }
    for e in events {
        let before = buf.len();
        assert_eq!(Codec.decode(&mut buf), Some(e));
        assert_eq!(buf.len(), before - 8);
    }
    assert!(buf.is_empty());
}

#[test]
fn decode_short_read_keeps_buffer() {
    let mut buf = BytesMut::new();
    Codec.encode(InputEvent::new(1, 30, 1), &mut buf);
    let _ = buf.split_off(7);
    let before = buf.clone();
    assert_eq!(Codec.decode(&mut buf), None);
    assert_eq!(buf, before);
    let mut empty = BytesMut::new();
    assert_eq!(Codec.decode(&mut empty), None);
    assert!(empty.is_empty());
}

#[test]
fn decode_leaves_partial_frame() {
    let mut buf = BytesMut::from(&[0, 1, 0, 30, 0, 0, 0, 1, 0xDE, 0xAD][..]);
    assert_eq!(Codec.decode(&mut buf), Some(InputEvent::new(1, 30, 1)));
    assert_eq!(&buf[..], &[0xDE, 0xAD]);
    assert_eq!(Codec.decode(&mut buf), None);
    assert_eq!(&buf[..], &[0xDE, 0xAD]);
}
