use crate::frame::{Frame, FrameView};
use crate::model::delivered_all;
use crate::room::Room;
use futures_channel::mpsc::UnboundedReceiver;
use vstd::prelude::*;

verus! {

/// The per-connection life cycle: a session performs the handshake while
/// connecting, is a member of the room while active, and is terminal once
/// closed.
#[derive(PartialEq, Eq, Structural, Debug, Clone, Copy)]
pub enum SessionPhase {
    Connecting,
    Active,
    Closed,
}

/// The per-connection actor's state: its connection identifier and where it
/// stands in the life cycle `Connecting -> Active -> Closed`.
pub struct Session {
    id: u64,
    phase: SessionPhase,
}

impl Session {
    pub closed spec fn id_spec(self) -> u64 {
        self.id
    }

    pub closed spec fn phase_spec(self) -> SessionPhase {
        self.phase
    }

    /// A session for a freshly accepted connection, before the handshake.
    pub fn new(id: u64) -> (s: Session)
        ensures
            s.id_spec() == id,
            s.phase_spec() == SessionPhase::Connecting,
    {
        Session { id, phase: SessionPhase::Connecting }
    }

    pub fn id(&self) -> (id: u64)
        ensures
            id == self.id_spec(),
    {
        self.id
    }

    pub fn phase(&self) -> (p: SessionPhase)
        ensures
            p == self.phase_spec(),
    {
        self.phase
    }

    /// The handshake failed: the session moves directly to closed without
    /// ever registering, and no other member is affected.
    pub fn handshake_failed(&mut self)
        requires
            old(self).phase_spec() == SessionPhase::Connecting,
        ensures
            final (self).id_spec() == old(self).id_spec(),
            final (self).phase_spec() == SessionPhase::Closed,
    {
        self.phase = SessionPhase::Closed;
    }

    /// The handshake succeeded: the session creates its outbound channel,
    /// registers in the room with an empty delivery queue, becomes active,
    /// and hands back the consumer end for its outbound loop.
    pub fn activate(&mut self, room: &mut Room) -> (rx: UnboundedReceiver<Frame>)
        requires
            old(self).phase_spec() == SessionPhase::Connecting,
            old(room).wf(),
            !old(room)@.dom().contains(old(self).id_spec()),
        ensures
            final (self).id_spec() == old(self).id_spec(),
            final (self).phase_spec() == SessionPhase::Active,
            final (room).wf(),
            final (room)@ == old(room)@.insert(old(self).id_spec(), Seq::<FrameView>::empty()),
    {
        let rx = room.join(self.id);
        self.phase = SessionPhase::Active;
        rx
    }

    /// One step of the inbound loop: dispatches the frame just read, and
    /// says whether the loop goes on; a close frame removes the session's
    /// entry and stops the loop.
    pub fn on_frame(&mut self, room: &mut Room, frame: &Frame) -> (cont: bool)
        requires
            old(self).phase_spec() == SessionPhase::Active,
            old(room).wf(),
        ensures
            *final (self) == *old(self),
            final (room).wf(),
            frame@ is Text ==> delivered_all(old(room)@, final (room)@, frame@) && cont,
            frame@ is Close ==> final (room)@ == old(room)@.remove(old(self).id_spec()) && !cont,
            !(frame@ is Text) && !(frame@ is Close) ==> final (room)@ == old(room)@ && cont,
    {
        room.handle_frame(self.id, frame)
    }

    /// The session is finished as soon as the first of its two loops is:
    /// cleanup removes the registry entry and closes the session. Removal of
    /// an absent entry is a no-op, so the entry leaves the registry exactly
    /// once whichever loop finished first and however the close came about.
    pub fn finish(&mut self, room: &mut Room)
        requires
            old(room).wf(),
        ensures
            final (self).id_spec() == old(self).id_spec(),
            final (self).phase_spec() == SessionPhase::Closed,
            final (room).wf(),
            final (room)@ == old(room)@.remove(old(self).id_spec()),
    {
        room.unregister(self.id);
        self.phase = SessionPhase::Closed;
    }
}

} // verus!
