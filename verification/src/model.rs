use crate::frame::FrameView;
use vstd::prelude::*;

verus! {

/// A membership event at the registry: a session completing registration, or
/// a session completing removal (explicit close, or disconnect cleanup).
pub ghost enum Event {
    Join(u64),
    Leave(u64),
}

/// The effect of one membership event on the set of registered identifiers.
pub open spec fn step_members(m: Set<u64>, e: Event) -> Set<u64> {
    match e {
        Event::Join(id) => m.insert(id),
        Event::Leave(id) => m.remove(id),
    }
}

/// The set of registered identifiers after a whole sequence of membership
/// events, applied in order.
pub open spec fn run_members(m: Set<u64>, es: Seq<Event>) -> Set<u64>
    decreases es.len(),
{
    if es.len() == 0 {
        m
    } else {
        step_members(run_members(m, es.drop_last()), es.last())
    }
}

/// An identifier has joined and not left since: some join of it is not
/// followed by any later leave of it.
pub open spec fn admitted(es: Seq<Event>, id: u64) -> bool {
    exists|j: int|
        0 <= j < es.len() && es[j] == Event::Join(id) && (forall|k: int|
            j < k < es.len() ==> es[k] != Event::Leave(id))
}

/// What one broadcast does to the per-member delivery queues, seen as the
/// map from each member's identifier to the sequence of frames enqueued for
/// it: no new member appears, every member that stays got exactly the
/// broadcast frame appended, and a member disappears only by lazy removal
/// when its consumer is gone.
pub open spec fn delivered_all(
    before: Map<u64, Seq<FrameView>>,
    after: Map<u64, Seq<FrameView>>,
    f: FrameView,
) -> bool {
    &&& after.dom().subset_of(before.dom())
    &&& forall|id: u64| after.dom().contains(id) ==> after[id] == before[id].push(f)
}

} // verus!
