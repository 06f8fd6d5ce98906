use futures_channel::mpsc::{unbounded, UnboundedReceiver};
use ws_chat::frame::Frame;
use ws_chat::room::{Room, RoomError};

fn recv(rx: &mut UnboundedReceiver<Frame>) -> Option<Frame> {
    match rx.try_next() {
        Ok(Some(f)) => Some(f),
        _ => None,
    }
}

fn text(s: &str) -> Frame {
    Frame::Text(String::from(s))
}

#[test]
fn two_members_both_receive() {
    let mut room = Room::new();
    let (tx_a, mut rx_a) = unbounded();
    let (tx_b, mut rx_b) = unbounded();
    room.register(1, tx_a);
    room.register(2, tx_b);
    assert_eq!(room.len(), 2);

    let cont = room.handle_frame(1, &text("hi"));
    assert!(cont);
    assert_eq!(recv(&mut rx_a), Some(text("hi")));
    assert_eq!(recv(&mut rx_b), Some(text("hi")));
    assert_eq!(recv(&mut rx_a), None);
    assert_eq!(recv(&mut rx_b), None);
}

#[test]
fn close_leaves_room_and_stops_delivery() {
    let mut room = Room::new();
    let (tx_a, mut rx_a) = unbounded();
    let (tx_b, mut rx_b) = unbounded();
    room.register(1, tx_a);
    room.register(2, tx_b);

    room.handle_frame(1, &text("hi"));
    assert_eq!(recv(&mut rx_a), Some(text("hi")));
    assert_eq!(recv(&mut rx_b), Some(text("hi")));

    let cont = room.handle_frame(2, &Frame::Close);
    assert!(!cont);
    assert!(!room.is_member(2));
    assert!(room.is_member(1));

    let cont = room.handle_frame(1, &text("hello"));
    assert!(cont);
    assert_eq!(recv(&mut rx_a), Some(text("hello")));
    assert_eq!(recv(&mut rx_b), None);
}

#[test]
fn broadcast_to_empty_room_is_noop() {
    let mut room = Room::new();
    assert_eq!(room.len(), 0);
    room.broadcast(&text("nobody hears this"));
    room.broadcast(&Frame::Binary(vec![1, 2, 3]));
    assert_eq!(room.len(), 0);
}

#[test]
fn single_member_receives_own_frames_in_order() {
    let mut room = Room::new();
    let (tx_a, mut rx_a) = unbounded();
    room.register(1, tx_a);

    room.handle_frame(1, &text("one"));
    room.handle_frame(1, &text("two"));
    assert_eq!(recv(&mut rx_a), Some(text("one")));
    assert_eq!(recv(&mut rx_a), Some(text("two")));
    assert_eq!(recv(&mut rx_a), None);
}

#[test]
fn registry_tracks_connects_and_disconnects() {
    let mut room = Room::new();
    let (tx_a, _rx_a) = unbounded();
    let (tx_b, _rx_b) = unbounded();
    let (tx_c, _rx_c) = unbounded();

    room.register(1, tx_a);
    room.register(2, tx_b);
    room.register(3, tx_c);
    assert_eq!(room.len(), 3);
    assert!(room.is_member(1) && room.is_member(2) && room.is_member(3));

    room.unregister(2);
    assert_eq!(room.len(), 2);
    assert!(room.is_member(1) && !room.is_member(2) && room.is_member(3));

    room.unregister(1);
    room.unregister(3);
    assert_eq!(room.len(), 0);
}

#[test]
fn removal_is_idempotent() {
    let mut room = Room::new();
    let (tx_a, _rx_a) = unbounded();
    let (tx_b, _rx_b) = unbounded();
    room.register(1, tx_a);
    room.register(2, tx_b);

    room.unregister(2);
    let after_once = (room.len(), room.is_member(2));
    room.unregister(2);
    assert_eq!((room.len(), room.is_member(2)), after_once);

    // Close after the entry is already gone behaves like the second removal.
    let cont = room.handle_frame(2, &Frame::Close);
    assert!(!cont);
    assert_eq!((room.len(), room.is_member(2)), after_once);
    assert!(room.is_member(1));
}

#[test]
fn non_text_frames_produce_no_broadcast() {
    let mut room = Room::new();
    let (tx_a, mut rx_a) = unbounded();
    room.register(1, tx_a);

    assert!(room.handle_frame(1, &Frame::Binary(vec![0xde, 0xad])));
    assert!(room.handle_frame(1, &Frame::Ping));
    assert!(room.handle_frame(1, &Frame::Pong));
    assert!(room.handle_frame(1, &Frame::Other));
    assert_eq!(recv(&mut rx_a), None);
    assert!(room.is_member(1));
}

#[test]
fn unreachable_recipient_is_absorbed_and_dropped() {
    let mut room = Room::new();
    let (tx_a, mut rx_a) = unbounded();
    let (tx_b, rx_b) = unbounded();
    room.register(1, tx_a);
    room.register(2, tx_b);
    drop(rx_b);

    // The dead recipient neither aborts the broadcast nor stays registered.
    room.broadcast(&text("still here"));
    assert_eq!(recv(&mut rx_a), Some(text("still here")));
    assert!(room.is_member(1));
    assert!(!room.is_member(2));
    assert_eq!(room.len(), 1);
}

#[test]
fn binary_broadcast_copies_payload() {
    let mut room = Room::new();
    let (tx_a, mut rx_a) = unbounded();
    room.register(1, tx_a);
    room.broadcast(&Frame::Binary(vec![9, 8, 7]));
    assert_eq!(recv(&mut rx_a), Some(Frame::Binary(vec![9, 8, 7])));
}

#[test]
fn frame_duplicate_is_equal() {
    let f = text("payload");
    assert_eq!(f.duplicate(), f);
    let b = Frame::Binary(vec![1, 2, 3]);
    assert_eq!(b.duplicate(), b);
    assert_eq!(Frame::Close.duplicate(), Frame::Close);
}

#[test]
fn room_error_carries_failure_text() {
    let e = RoomError::JoinError(String::from("connection reset"));
    assert_eq!(e.message(), "connection reset");
}
