use futures_channel::mpsc::UnboundedReceiver;
use ws_chat::frame::Frame;
use ws_chat::room::Room;
use ws_chat::session::{Session, SessionPhase};

fn recv(rx: &mut UnboundedReceiver<Frame>) -> Option<Frame> {
    match rx.try_next() {
        Ok(Some(f)) => Some(f),
        _ => None,
    }
}

fn text(s: &str) -> Frame {
    Frame::Text(String::from(s))
}

#[test]
fn handshake_failure_never_registers() {
    let mut room = Room::new();
    let mut session = Session::new(5);
    assert_eq!(session.phase(), SessionPhase::Connecting);
    session.handshake_failed();
    assert_eq!(session.phase(), SessionPhase::Closed);
    assert!(!room.is_member(5));
    assert_eq!(room.len(), 0);
}

#[test]
fn session_lifecycle_register_chat_close() {
    let mut room = Room::new();
    let mut a = Session::new(1);
    let mut b = Session::new(2);
    assert_eq!(a.id(), 1);

    let mut rx_a = a.activate(&mut room);
    let mut rx_b = b.activate(&mut room);
    assert_eq!(a.phase(), SessionPhase::Active);
    assert!(room.is_member(1) && room.is_member(2));

    let cont = a.on_frame(&mut room, &text("hi"));
    assert!(cont);
    assert_eq!(recv(&mut rx_a), Some(text("hi")));
    assert_eq!(recv(&mut rx_b), Some(text("hi")));

    let cont = b.on_frame(&mut room, &Frame::Close);
    assert!(!cont);
    assert!(!room.is_member(2));

    b.finish(&mut room);
    assert_eq!(b.phase(), SessionPhase::Closed);

    let cont = a.on_frame(&mut room, &text("hello"));
    assert!(cont);
    assert_eq!(recv(&mut rx_a), Some(text("hello")));
    assert_eq!(recv(&mut rx_b), None);

    a.finish(&mut room);
    assert_eq!(room.len(), 0);
}

#[test]
fn cleanup_after_close_is_harmless() {
    let mut room = Room::new();
    let mut a = Session::new(1);
    let mut b = Session::new(2);
    let _rx_a = a.activate(&mut room);
    let _rx_b = b.activate(&mut room);

    // The inbound loop saw a close frame, then the session's cleanup runs
    // too: the entry leaves exactly once.
    b.on_frame(&mut room, &Frame::Close);
    b.finish(&mut room);
    assert!(!room.is_member(2));
    assert!(room.is_member(1));
    assert_eq!(room.len(), 1);
}
