use crate::frame::FrameView;
use crate::model::{admitted, delivered_all, run_members, step_members, Event};
use vstd::prelude::*;

verus! {

/// A join adds exactly the joining identifier to the registered set, as one
/// membership step says.
pub proof fn lemma_join_step(m: Map<u64, Seq<FrameView>>, id: u64, q: Seq<FrameView>)
    ensures
        m.insert(id, q).dom() == step_members(m.dom(), Event::Join(id)),
{
    assert(m.insert(id, q).dom() =~= m.dom().insert(id));
}

/// A leave removes exactly the leaving identifier from the registered set,
/// as one membership step says.
pub proof fn lemma_leave_step(m: Map<u64, Seq<FrameView>>, id: u64)
    ensures
        m.remove(id).dom() == step_members(m.dom(), Event::Leave(id)),
{
    assert(m.remove(id).dom() =~= m.dom().remove(id));
}

/// For any sequence of joins and leaves starting from an empty room, the
/// registered set holds exactly the identifiers that have completed a join
/// and not completed a leave since.
pub proof fn lemma_registry_matches_history(es: Seq<Event>)
    ensures
        forall|id: u64|
            run_members(Set::empty(), es).contains(id) <==> #[trigger] admitted(es, id),
    decreases es.len(),
{
    if es.len() == 0 {
        assert(forall|id: u64| !admitted(es, id));
    } else {
        let es0 = es.drop_last();
        let e = es.last();
        lemma_registry_matches_history(es0);
        assert forall|id: u64|
            run_members(Set::empty(), es).contains(id) <==> #[trigger] admitted(es, id) by {
            if e == Event::Join(id) {
                assert(run_members(Set::empty(), es).contains(id));
                assert(es[es.len() - 1] == Event::Join(id) && (forall|k: int|
                    es.len() - 1 < k < es.len() ==> es[k] != Event::Leave(id)));
                assert(admitted(es, id));
            } else if e == Event::Leave(id) {
                assert(!run_members(Set::empty(), es).contains(id));
                assert(!admitted(es, id)) by {
                    if admitted(es, id) {
                        let j = choose|j: int|
                            0 <= j < es.len() && es[j] == Event::Join(id) && (forall|k: int|
                                j < k < es.len() ==> es[k] != Event::Leave(id));
                        assert(es[j] == Event::Join(id));
                        assert(j < es.len() - 1);
                        assert(es[es.len() - 1] != Event::Leave(id));
                    }
                }
            } else {
                assert(run_members(Set::empty(), es).contains(id) == run_members(
                    Set::empty(),
                    es0,
                ).contains(id));
                assert(admitted(es0, id) ==> admitted(es, id)) by {
                    if admitted(es0, id) {
                        let j = choose|j: int|
                            0 <= j < es0.len() && es0[j] == Event::Join(id) && (forall|k: int|
                                j < k < es0.len() ==> es0[k] != Event::Leave(id));
                        assert(es[j] == Event::Join(id));
                        assert(forall|k: int| j < k < es.len() - 1 ==> es[k] == es0[k]);
                        assert(forall|k: int| j < k < es.len() ==> es[k] != Event::Leave(id));
                        assert(admitted(es, id));
                    }
                }
                assert(admitted(es, id) ==> admitted(es0, id)) by {
                    if admitted(es, id) {
                        let j = choose|j: int|
                            0 <= j < es.len() && es[j] == Event::Join(id) && (forall|k: int|
                                j < k < es.len() ==> es[k] != Event::Leave(id));
                        assert(j != es.len() - 1);
                        assert(es0[j] == es[j]);
                        assert(forall|k: int| j < k < es0.len() ==> es0[k] == es[k]);
                        assert(admitted(es0, id));
                    }
                }
            }
        }
    }
}

/// Removing a member is idempotent: triggering removal twice leaves the
/// registry exactly as one removal does.
pub proof fn lemma_removal_idempotent(m: Map<u64, Seq<FrameView>>, id: u64)
    ensures
        m.remove(id).remove(id) == m.remove(id),
{
    assert(m.remove(id).remove(id) =~= m.remove(id));
}

/// Frames from one sender keep the sender's order: after two broadcasts, in
/// that order, every member still registered holds its earlier queue with
/// the first frame and then the second appended, so the first is delivered
/// before the second, exactly once each.
pub proof fn lemma_sender_order(
    m0: Map<u64, Seq<FrameView>>,
    m1: Map<u64, Seq<FrameView>>,
    m2: Map<u64, Seq<FrameView>>,
    f1: FrameView,
    f2: FrameView,
)
    requires
        delivered_all(m0, m1, f1),
        delivered_all(m1, m2, f2),
    ensures
        m2.dom().subset_of(m0.dom()),
        forall|id: u64| m2.dom().contains(id) ==> m2[id] == m0[id].push(f1).push(f2),
{
}

/// Each delivered frame is whole and unmodified: a broadcast appends to a
/// recipient's queue exactly one frame, equal to the frame sent, and leaves
/// the rest of the queue as it was.
pub proof fn lemma_frames_delivered_whole(
    m0: Map<u64, Seq<FrameView>>,
    m1: Map<u64, Seq<FrameView>>,
    f: FrameView,
)
    requires
        delivered_all(m0, m1, f),
    ensures
        forall|id: u64|
            m1.dom().contains(id) ==> m1[id].len() == m0[id].len() + 1 && m1[id].last() == f
                && m1[id].drop_last() == m0[id],
{
    assert forall|id: u64| m1.dom().contains(id) implies m1[id].len() == m0[id].len() + 1
        && m1[id].last() == f && m1[id].drop_last() == m0[id] by {
        assert(m1[id] == m0[id].push(f));
        assert(m0[id].push(f).drop_last() =~= m0[id]);
    }
}

/// With no members registered, a broadcast is a no-op: it delivers nothing,
/// changes nothing and raises no error.
pub proof fn lemma_broadcast_empty(
    m0: Map<u64, Seq<FrameView>>,
    m1: Map<u64, Seq<FrameView>>,
    f: FrameView,
)
    requires
        delivered_all(m0, m1, f),
        m0.dom() == Set::<u64>::empty(),
    ensures
        m1 == m0,
{
    assert(m1.dom() =~= Set::<u64>::empty());
    assert(m1 =~= m0);
}

} // verus!
