use std::collections::VecDeque;
use vstd::prelude::*;

verus! {

/// Most snapshots the client keeps for interpolation.
pub const MAX_SNAPSHOT_BUFFER: usize = 8;

/// How a new snapshot's server time compares with the latest kept one.
#[derive(Clone, Copy, Debug, PartialEq, Eq, Structural)]
pub enum TimeOrder {
    /// The server timeline went backwards (reconnect or server restart).
    Earlier,
    /// The same time point, within the tolerance.
    Same,
    /// A later time point.
    Later,
}

/// The snapshots kept after pushing `s`: a timeline that went backwards
/// starts over, a repeated time point replaces the latest snapshot, and the
/// oldest snapshot is dropped when more than `MAX_SNAPSHOT_BUFFER` remain.
pub open spec fn after_push<T>(kept: Seq<T>, s: T, order: TimeOrder) -> Seq<T> {
    let base = if kept.len() == 0 {
        kept
    } else {
        match order {
            TimeOrder::Earlier => Seq::<T>::empty(),
            TimeOrder::Same => kept.drop_last(),
            TimeOrder::Later => kept,
        }
    };
    let pushed = base.push(s);
    if pushed.len() > MAX_SNAPSHOT_BUFFER {
        pushed.drop_first()
    } else {
        pushed
    }
}

/// The client's buffer of recent server snapshots, oldest first.
pub struct SnapshotBuffer<T> {
    pub snapshots: VecDeque<T>,
}

impl<T> SnapshotBuffer<T> {
    pub fn new() -> (b: Self)
        ensures
            b.snapshots@ == Seq::<T>::empty(),
    {
        SnapshotBuffer { snapshots: VecDeque::new() }
    }

    /// Forgets every snapshot.
    pub fn clear(&mut self)
        ensures
            final(self).snapshots@ == Seq::<T>::empty(),
    {
        self.snapshots.clear();
    }

    /// Keeps a new snapshot. `order` compares its server time with the
    /// latest kept snapshot's (it does not matter when none is kept).
    /// Returns true when the timeline went backwards and the buffer
    /// started over, so the caller resets what it derived from it.
    pub fn push(&mut self, snapshot: T, order: TimeOrder) -> (reset: bool)
        ensures
            reset == (old(self).snapshots@.len() > 0 && order == TimeOrder::Earlier),
            final(self).snapshots@ == after_push(old(self).snapshots@, snapshot, order),
    {
        let mut reset = false;
        if self.snapshots.len() > 0 {
            match order {
                TimeOrder::Earlier => {
                    self.snapshots.clear();
                    reset = true;
                },
                TimeOrder::Same => {
                    let _ = self.snapshots.pop_back();
                },
                TimeOrder::Later => {},
            }
        }
        self.snapshots.push_back(snapshot);
        if self.snapshots.len() > MAX_SNAPSHOT_BUFFER {
            let _ = self.snapshots.pop_front();
        }
        proof {
            let kept = old(self).snapshots@;
            if kept.len() > 0 && order == TimeOrder::Same {
                assert(kept.subrange(0, kept.len() - 1) =~= kept.drop_last());
            }
            let base = if kept.len() == 0 {
                kept
            } else {
                match order {
                    TimeOrder::Earlier => Seq::<T>::empty(),
                    TimeOrder::Same => kept.drop_last(),
                    TimeOrder::Later => kept,
                }
            };
            let pushed = base.push(snapshot);
            if pushed.len() > MAX_SNAPSHOT_BUFFER {
                assert(pushed.subrange(1, pushed.len() as int) =~= pushed.drop_first());
            }
        }
        reset
    }
}

/// The buffer never holds more than `MAX_SNAPSHOT_BUFFER` snapshots, and
/// the snapshot just pushed is always the latest one kept.
pub proof fn lemma_push_keeps_bound_and_latest<T>(kept: Seq<T>, s: T, order: TimeOrder)
    requires
        kept.len() <= MAX_SNAPSHOT_BUFFER,
    ensures
        after_push(kept, s, order).len() <= MAX_SNAPSHOT_BUFFER,
        after_push(kept, s, order).len() >= 1,
        after_push(kept, s, order).last() == s,
{
}

/// Snapshots arriving in time order are all kept, oldest first, up to the
/// bound: pushing a later snapshot onto a buffer with room appends it.
pub proof fn lemma_later_snapshot_appends<T>(kept: Seq<T>, s: T)
    requires
        kept.len() < MAX_SNAPSHOT_BUFFER,
    ensures
        after_push(kept, s, TimeOrder::Later) == kept.push(s),
{
}

} // verus!
