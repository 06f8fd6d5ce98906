use crate::frame::{Frame, FrameView};
use vstd::prelude::*;

verus! {

#[verifier::external_type_specification]
#[verifier::external_body]
#[verifier::reject_recursive_types(T)]
pub struct ExUnboundedSender<T>(futures_channel::mpsc::UnboundedSender<T>);

#[verifier::external_type_specification]
#[verifier::external_body]
#[verifier::reject_recursive_types(T)]
pub struct ExUnboundedReceiver<T>(futures_channel::mpsc::UnboundedReceiver<T>);

/// The frames that have been accepted by this producer handle, oldest first.
/// The channel is unbounded and FIFO: its consumer receives these frames in
/// exactly this relative order.
pub uninterp spec fn sent_frames(tx: futures_channel::mpsc::UnboundedSender<Frame>) -> Seq<
    FrameView,
>;

/// Relies on futures_channel::mpsc::UnboundedSender::unbounded_send: the
/// channel is unbounded, so the send never blocks; it returns Ok and appends
/// the frame to the channel's queue while the receiving half is still alive,
/// and returns Err with the frame unsent once the receiver is gone.
#[verifier::external_body]
pub(crate) fn send_frame(
    tx: &mut futures_channel::mpsc::UnboundedSender<Frame>,
    f: Frame,
) -> (ok: bool)
    ensures
        ok ==> sent_frames(*final (tx)) == sent_frames(*old(tx)).push(f@),
        !ok ==> sent_frames(*final (tx)) == sent_frames(*old(tx)),
{
    tx.unbounded_send(f).is_ok()
}

/// Relies on futures_channel::mpsc::unbounded: a fresh channel starts empty,
/// so nothing has been accepted by its producer handle yet.
#[verifier::external_body]
pub(crate) fn new_channel() -> (p: (
    futures_channel::mpsc::UnboundedSender<Frame>,
    futures_channel::mpsc::UnboundedReceiver<Frame>,
))
    ensures
        sent_frames(p.0) == Seq::<FrameView>::empty(),
{
    futures_channel::mpsc::unbounded()
}

} // verus!
