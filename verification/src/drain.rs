//! The keep-alive pump of the event-driven presence client.
//!
//! That client delivers connection-state changes on a notification stream,
//! and its dispatcher stays alive only while somebody listens. A background
//! task therefore awaits one notification after the other and ends the first
//! time the stream reports that it is closed. The awaiting is the caller's;
//! the decision whether to go on is made here.

use vstd::prelude::*;

verus! {

/// What the pump does after a notification.
#[derive(Clone, Copy, Debug, PartialEq, Eq, Structural)]
pub enum DrainAction {
    /// Await the next notification.
    AwaitNext,
    /// Leave the loop and end the task.
    Exit,
}

/// How many notifications the pump awaits when the stream answers as
/// `deliveries` says, in order (`true` for a delivered change, `false` for a
/// closed stream): all up to and including the first closure.
pub open spec fn awaited(deliveries: Seq<bool>) -> nat
    decreases deliveries.len(),
{
    if deliveries.len() == 0 {
        0
    } else if deliveries[0] {
        1 + awaited(deliveries.drop_first())
    } else {
        1
    }
}

/// Decides what follows a notification: the pump goes on exactly while the
/// stream delivers.
pub fn after_notification(delivered: bool) -> (action: DrainAction)
    ensures
        action == if delivered {
            DrainAction::AwaitNext
        } else {
            DrainAction::Exit
        },
{
    if delivered {
        DrainAction::AwaitNext
    } else {
        DrainAction::Exit
    }
}

/// The pump never awaits past the first closure: when the stream closes at
/// position `closed_at` and delivered before, exactly `closed_at + 1`
/// notifications are awaited, whatever the stream would answer afterwards.
pub proof fn lemma_stops_at_first_closure(deliveries: Seq<bool>, closed_at: nat)
    requires
        closed_at < deliveries.len(),
        forall|i: int| 0 <= i < closed_at ==> deliveries[i],
        !deliveries[closed_at as int],
    ensures
        awaited(deliveries) == closed_at + 1,
    decreases closed_at,
{
    if closed_at > 0 {
        let rest = deliveries.drop_first();
        assert forall|i: int| 0 <= i < closed_at - 1 implies rest[i] by {
            assert(rest[i] == deliveries[i + 1]);
        }
        assert(rest[closed_at - 1] == deliveries[closed_at as int]);
        lemma_stops_at_first_closure(rest, (closed_at - 1) as nat);
    }
}

} // verus!
