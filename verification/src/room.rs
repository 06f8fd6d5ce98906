use crate::channel::{new_channel, send_frame, sent_frames};
use crate::frame::{Frame, FrameView};
use crate::model::delivered_all;
use futures_channel::mpsc::{UnboundedReceiver, UnboundedSender};
use vstd::prelude::*;

verus! {

/// One registered member of the room: its connection identifier and the
/// producer handle of its outbound channel.
struct Member {
    id: u64,
    tx: UnboundedSender<Frame>,
}

spec fn has_id(s: Seq<Member>, id: u64) -> bool {
    exists|i: int| 0 <= i < s.len() && s[i].id == id
}

spec fn idx_of(s: Seq<Member>, id: u64) -> int {
    choose|i: int| 0 <= i < s.len() && s[i].id == id
}

spec fn distinct_ids(s: Seq<Member>) -> bool {
    forall|i: int, j: int| 0 <= i < j < s.len() ==> s[i].id != s[j].id
}

proof fn lemma_idx_at(s: Seq<Member>, i: int)
    requires
        distinct_ids(s),
        0 <= i < s.len(),
    ensures
        idx_of(s, s[i].id) == i,
{
    assert(has_id(s, s[i].id));
    let j = idx_of(s, s[i].id);
    assert(0 <= j < s.len() && s[j].id == s[i].id);
}

/// The membership registry of the single shared room: the mapping from each
/// live connection's identifier to that connection's outbound delivery
/// handle. Seen through its view, a room is the map from each registered
/// identifier to the sequence of frames enqueued on that member's channel.
pub struct Room {
    members: Vec<Member>,
}

spec fn members_view(s: Seq<Member>) -> Map<u64, Seq<FrameView>> {
    Map::new(|id: u64| has_id(s, id), |id: u64| sent_frames(s[idx_of(s, id)].tx))
}

proof fn lemma_view_after_remove(s0: Seq<Member>, i: int, id: u64)
    requires
        distinct_ids(s0),
        0 <= i < s0.len(),
        s0[i].id == id,
    ensures
        members_view(s0.remove(i)) == members_view(s0).remove(id),
{
    let s1 = s0.remove(i);
    assert forall|a: int, b: int| 0 <= a < b < s1.len() implies s1[a].id != s1[b].id by {
        let a0 = if a < i {
            a
        } else {
            a + 1
        };
        let b0 = if b < i {
            b
        } else {
            b + 1
        };
        assert(s1[a] == s0[a0] && s1[b] == s0[b0]);
    }
    assert forall|k: u64| true implies #[trigger] members_view(s1).contains_key(k) == members_view(
        s0,
    ).remove(id).contains_key(k) && (members_view(s1).contains_key(k) ==> members_view(s1)[k]
        == members_view(s0).remove(id)[k]) by {
        if k == id {
            assert(!has_id(s1, k)) by {
                if has_id(s1, k) {
                    let a = idx_of(s1, k);
                    assert(s1[a].id == k);
                    let a0 = if a < i {
                        a
                    } else {
                        a + 1
                    };
                    assert(s1[a] == s0[a0]);
                    assert(s0[a0].id == id && a0 != i);
                }
            }
        } else {
            if has_id(s0, k) {
                let a0 = idx_of(s0, k);
                assert(s0[a0].id == k);
                assert(a0 != i);
                let a = if a0 < i {
                    a0
                } else {
                    a0 - 1
                };
                assert(s1[a] == s0[a0]);
                assert(has_id(s1, k));
                lemma_idx_at(s0, a0);
                lemma_idx_at(s1, a);
                assert(members_view(s1)[k] == sent_frames(s1[a].tx));
            } else {
                assert(!has_id(s1, k)) by {
                    if has_id(s1, k) {
                        let a = idx_of(s1, k);
                        let a0 = if a < i {
                            a
                        } else {
                            a + 1
                        };
                        assert(s1[a] == s0[a0]);
                        assert(has_id(s0, k));
                    }
                }
            }
        }
    }
    assert(members_view(s1) =~= members_view(s0).remove(id));
}

proof fn lemma_view_card(s: Seq<Member>)
    requires
        distinct_ids(s),
    ensures
        members_view(s).dom().finite(),
        members_view(s).dom().len() == s.len(),
    decreases s.len(),
{
    if s.len() == 0 {
        assert(members_view(s).dom() =~= Set::<u64>::empty());
    } else {
        let st = s.drop_last();
        let last = s[s.len() - 1];
        assert forall|a: int, b: int| 0 <= a < b < st.len() implies st[a].id != st[b].id by {
            assert(st[a] == s[a] && st[b] == s[b]);
        }
        lemma_view_card(st);
        assert(!has_id(st, last.id)) by {
            if has_id(st, last.id) {
                let a = idx_of(st, last.id);
                assert(st[a] == s[a]);
                assert(s[a].id == s[s.len() - 1].id);
            }
        }
        assert(members_view(s).dom() =~= members_view(st).dom().insert(last.id)) by {
            assert forall|k: u64| has_id(s, k) implies has_id(st, k) || k == last.id by {
                let a = idx_of(s, k);
                assert(s[a].id == k);
                if a < s.len() - 1 {
                    assert(st[a] == s[a]);
                }
            }
            assert forall|k: u64| has_id(st, k) implies has_id(s, k) by {
                let a = idx_of(st, k);
                assert(st[a] == s[a]);
            }
            assert(has_id(s, last.id));
        }
    }
}

impl View for Room {
    type V = Map<u64, Seq<FrameView>>;

    closed spec fn view(&self) -> Map<u64, Seq<FrameView>> {
        members_view(self.members@)
    }
}

impl Room {
    /// Registered identifiers are unique: each connection holds at most one
    /// entry.
    pub closed spec fn wf(self) -> bool {
        distinct_ids(self.members@)
    }

    /// A room with no members registered.
    pub fn new() -> (r: Room)
        ensures
            r.wf(),
            r@ == Map::<u64, Seq<FrameView>>::empty(),
    {
        let r = Room { members: Vec::new() };
        proof {
            assert(r@ =~= Map::<u64, Seq<FrameView>>::empty());
        }
        r
    }

    /// Registers a member: inserts the entry unconditionally; the caller
    /// guarantees the identifier is not already present (connection
    /// identifiers are fresh for a connection's lifetime).
    pub fn register(&mut self, id: u64, tx: UnboundedSender<Frame>)
        requires
            old(self).wf(),
            !old(self)@.dom().contains(id),
        ensures
            final (self).wf(),
            final (self)@ == old(self)@.insert(id, sent_frames(tx)),
    {
        let ghost s0 = self.members@;
        self.members.push(Member { id, tx });
        proof {
            let s1 = self.members@;
            assert(!has_id(s0, id));
            assert forall|i: int, j: int| 0 <= i < j < s1.len() implies s1[i].id != s1[j].id by {
                if j < s1.len() - 1 {
                    assert(s1[i] == s0[i] && s1[j] == s0[j]);
                } else {
                    assert(s1[j].id == id);
                    assert(s1[i] == s0[i]);
                    assert(s1[i].id != id) by {
                        if s1[i].id == id {
                            assert(has_id(s0, id));
                        }
                    }
                }
            }
            assert forall|k: u64| true implies #[trigger] self@.contains_key(k) == old(
                self,
            )@.insert(id, sent_frames(tx)).contains_key(k) && (self@.contains_key(k)
                ==> self@[k] == old(self)@.insert(id, sent_frames(tx))[k]) by {
                if k == id {
                    assert(s1[s1.len() - 1].id == id);
                    assert(has_id(s1, id));
                    lemma_idx_at(s1, s1.len() - 1);
                    assert(self@[k] == sent_frames(tx));
                } else {
                    if has_id(s0, k) {
                        let i = idx_of(s0, k);
                        assert(s1[i] == s0[i]);
                        assert(has_id(s1, k));
                        lemma_idx_at(s1, i);
                        lemma_idx_at(s0, i);
                        assert(self@[k] == sent_frames(s0[i].tx));
                    } else {
                        assert(!has_id(s1, k)) by {
                            if has_id(s1, k) {
                                let i = idx_of(s1, k);
                                assert(s1[i].id == k);
                                assert(i < s1.len() - 1);
                                assert(s0[i].id == k);
                            }
                        }
                    }
                }
            }
            assert(self@ =~= old(self)@.insert(id, sent_frames(tx)));
        }
    }

    /// Creates a fresh outbound channel for a new member and registers its
    /// producer handle, so the member's delivery queue starts empty; the
    /// consumer end is handed back for the member's own outbound loop.
    pub fn join(&mut self, id: u64) -> (rx: UnboundedReceiver<Frame>)
        requires
            old(self).wf(),
            !old(self)@.dom().contains(id),
        ensures
            final (self).wf(),
            final (self)@ == old(self)@.insert(id, Seq::<FrameView>::empty()),
    {
        let (tx, rx) = new_channel();
        self.register(id, tx);
        rx
    }

    /// Unregisters a member: removes the entry if present, and is a no-op
    /// otherwise, so removal is safe to trigger more than once.
    pub fn unregister(&mut self, id: u64)
        requires
            old(self).wf(),
        ensures
            final (self).wf(),
            final (self)@ == old(self)@.remove(id),
    {
        let ghost s0 = self.members@;
        let n = self.members.len();
        let mut i: usize = 0;
        while i < n
            invariant
                self.members@ == s0,
                s0 == old(self).members@,
                n == s0.len(),
                i <= n,
                distinct_ids(s0),
                forall|k: int| 0 <= k < i ==> s0[k].id != id,
            decreases n - i,
        {
            if self.members[i].id == id {
                self.members.remove(i);
                proof {
                    let s1 = self.members@;
                    assert(s1 =~= s0.remove(i as int));
                    assert forall|a: int, b: int| 0 <= a < b < s1.len() implies s1[a].id
                        != s1[b].id by {
                        let a0 = if a < i { a } else { a + 1 };
                        let b0 = if b < i { b } else { b + 1 };
                        assert(s1[a] == s0[a0] && s1[b] == s0[b0]);
                    }
                    lemma_view_after_remove(s0, i as int, id);
                    assert(self@ =~= old(self)@.remove(id));
                }
                return ;
            }
            i = i + 1;
        }
        proof {
            assert(!has_id(s0, id));
            assert(!self@.contains_key(id));
            assert(self@ =~= old(self)@.remove(id));
        }
    }

    /// Broadcasts one frame: enqueues an independent copy of the frame onto
    /// every registered member's outbound channel, the sender's own included,
    /// holding exclusive access to the registry for the whole iteration. A
    /// member whose consumer is already gone cannot be delivered to; that
    /// failure is absorbed and the stale entry is lazily removed, so one
    /// unreachable recipient never aborts delivery to the others.
    pub fn broadcast(&mut self, frame: &Frame)
        requires
            old(self).wf(),
        ensures
            final (self).wf(),
            delivered_all(old(self)@, final (self)@, frame@),
    {
        let ghost s0 = self.members@;
        let mut kept: Vec<Member> = Vec::new();
        proof {
            assert(s0.take(s0.len() as int) =~= s0);
        }
        loop
            invariant
                s0 == old(self).members@,
                distinct_ids(s0),
                self.members@.len() <= s0.len(),
                self.members@ == s0.take(self.members@.len() as int),
                forall|a: int|
                    0 <= a < kept@.len() ==> exists|j: int|
                        self.members@.len() <= j < s0.len() && s0[j].id == #[trigger] kept@[a].id
                            && sent_frames(kept@[a].tx) == sent_frames(s0[j].tx).push(frame@),
                forall|a: int, b: int| 0 <= a < b < kept@.len() ==> kept@[a].id != kept@[b].id,
            decreases self.members@.len(),
        {
            if self.members.len() == 0 {
                break ;
            }
            let ghost k_pre = self.members@.len() as int;
            let mut m = self.members.pop().unwrap();
            proof {
                assert(s0.take(k_pre)[k_pre - 1] == s0[k_pre - 1]);
                assert(m == s0[k_pre - 1]);
                assert(self.members@ =~= s0.take(k_pre - 1));
            }
            let ok = send_frame(&mut m.tx, frame.duplicate());
            if ok {
                proof {
                    assert forall|a: int| 0 <= a < kept@.len() implies kept@[a].id != m.id by {
                        let j = choose|j: int|
                            k_pre <= j < s0.len() && s0[j].id == kept@[a].id && sent_frames(
                                kept@[a].tx,
                            ) == sent_frames(s0[j].tx).push(frame@);
                        assert(s0[j].id == kept@[a].id && j > k_pre - 1);
                    }
                }
                kept.push(m);
                proof {
                    assert forall|a: int| 0 <= a < kept@.len() implies exists|j: int|
                        self.members@.len() <= j < s0.len() && s0[j].id == #[trigger] kept@[a].id
                            && sent_frames(kept@[a].tx) == sent_frames(s0[j].tx).push(frame@) by {
                        if a == kept@.len() - 1 {
                            assert(self.members@.len() <= k_pre - 1 < s0.len() && s0[k_pre - 1].id
                                == kept@[a].id && sent_frames(kept@[a].tx) == sent_frames(
                                s0[k_pre - 1].tx,
                            ).push(frame@));
                        }
                    }
                }
            }
        }
        let ghost kept_snap = kept@;
        self.members = kept;
        proof {
            let s1 = self.members@;
            assert(s1 == kept_snap);
            assert forall|k: u64| #[trigger] self@.dom().contains(k) implies old(
                self,
            )@.dom().contains(k) && self@[k] == old(self)@[k].push(frame@) by {
                let a = idx_of(s1, k);
                assert(0 <= a < s1.len() && s1[a].id == k);
                let j = choose|j: int|
                    0 <= j < s0.len() && s0[j].id == s1[a].id && sent_frames(s1[a].tx)
                        == sent_frames(s0[j].tx).push(frame@);
                assert(0 <= j < s0.len() && s0[j].id == k && sent_frames(s1[a].tx) == sent_frames(
                    s0[j].tx,
                ).push(frame@));
                assert(has_id(s0, k));
                lemma_idx_at(s0, j);
                assert(old(self)@[k] == sent_frames(s0[j].tx));
                assert(distinct_ids(s1));
                lemma_idx_at(s1, a);
                assert(self@[k] == sent_frames(s1[a].tx));
            }
            assert(self@.dom().subset_of(old(self)@.dom()));
        }
    }

    /// Dispatches one inbound frame read from the member's connection, by
    /// tag: a text frame is broadcast to every registered member, the sender
    /// included; a close frame removes the sender's entry and stops its
    /// inbound loop; every other kind has no effect. The result says whether
    /// the inbound loop goes on.
    pub fn handle_frame(&mut self, id: u64, frame: &Frame) -> (cont: bool)
        requires
            old(self).wf(),
        ensures
            final (self).wf(),
            frame@ is Text ==> delivered_all(old(self)@, final (self)@, frame@) && cont,
            frame@ is Close ==> final (self)@ == old(self)@.remove(id) && !cont,
            !(frame@ is Text) && !(frame@ is Close) ==> final (self)@ == old(self)@ && cont,
    {
        match frame {
            Frame::Text(_) => {
                self.broadcast(frame);
                true
            },
            Frame::Close => {
                self.unregister(id);
                false
            },
            _ => true,
        }
    }

    /// How many members are currently registered.
    pub fn len(&self) -> (n: usize)
        requires
            self.wf(),
        ensures
            n == self@.dom().len(),
    {
        proof {
            lemma_view_card(self.members@);
        }
        self.members.len()
    }

    /// Whether the identifier is currently registered.
    pub fn is_member(&self, id: u64) -> (b: bool)
        ensures
            b == self@.dom().contains(id),
    {
        let n = self.members.len();
        let mut i: usize = 0;
        while i < n
            invariant
                n == self.members@.len(),
                i <= n,
                forall|k: int| 0 <= k < i ==> self.members@[k].id != id,
            decreases n - i,
        {
            if self.members[i].id == id {
                return true;
            }
            i = i + 1;
        }
        false
    }
}

/// The room's error: accepting a new connection failed, which is fatal to
/// the accept loop. The payload carries the text of the underlying
/// input/output failure.
#[derive(Debug)]
pub enum RoomError {
    JoinError(String),
}

impl RoomError {
    /// The text of the underlying failure.
    pub open spec fn detail(self) -> Seq<char> {
        match self {
            RoomError::JoinError(s) => s@,
        }
    }

    /// The failure text carried by the error.
    pub fn message(&self) -> (r: &str)
        ensures
            r@ == self.detail(),
    {
        match self {
            RoomError::JoinError(s) => s.as_str(),
        }
    }
}

} // verus!
