use vstd::prelude::*;

verus! {

/// How long a multicast membership is trusted before it is joined again.
pub const REJOIN_INTERVAL_MS: u64 = 10000;

/// How long the keeper sleeps between two checks that the socket is alive.
pub const LIVENESS_STEP_MS: u64 = 100;

/// What the membership keeper does next.
pub enum KeeperAction {
    /// (Re-)join the multicast group on the socket.
    Join,
    /// Sleep for `LIVENESS_STEP_MS`, then step again.
    Sleep,
    /// The socket is gone: end the task.
    Exit,
}

/// State of the task that keeps the multicast membership alive.
pub struct Keeper {
    /// No join has been made yet.
    pub pending_join: bool,
    /// Time since the last join.
    pub since_join_ms: u64,
}

impl Keeper {
    pub open spec fn wf(&self) -> bool {
        self.since_join_ms <= REJOIN_INTERVAL_MS
    }

    /// A keeper whose first step, while the socket lives, is a join.
    pub fn new() -> (r: Keeper)
        ensures
            r.wf(),
            r.pending_join,
            r.since_join_ms == 0,
    {
        Keeper { pending_join: true, since_join_ms: 0 }
    }

    /// Decides the next action, given whether the socket is still reachable
    /// and the time since the previous step. The keeper exits once the
    /// socket is gone, joins at first and whenever more than
    /// `REJOIN_INTERVAL_MS` has passed since the last join, and sleeps
    /// otherwise.
    pub fn step(&mut self, alive: bool, elapsed_ms: u64) -> (a: KeeperAction)
        requires
            old(self).wf(),
        ensures
            final(self).wf(),
            !alive ==> a is Exit && *final(self) == *old(self),
            alive && old(self).pending_join ==> a is Join && final(self).since_join_ms == 0
                && !final(self).pending_join,
            alive && !old(self).pending_join && old(self).since_join_ms as int + elapsed_ms as int
                > REJOIN_INTERVAL_MS as int ==> a is Join && final(self).since_join_ms == 0
                && !final(self).pending_join,
            alive && !old(self).pending_join && old(self).since_join_ms as int + elapsed_ms as int
                <= REJOIN_INTERVAL_MS as int ==> a is Sleep && final(self).since_join_ms as int
                == old(self).since_join_ms as int + elapsed_ms as int && !final(self).pending_join,
    {
        if !alive {
            KeeperAction::Exit
        } else if self.pending_join || elapsed_ms > REJOIN_INTERVAL_MS - self.since_join_ms {
            self.pending_join = false;
            self.since_join_ms = 0;
            KeeperAction::Join
        } else {
            self.since_join_ms = self.since_join_ms + elapsed_ms;
            KeeperAction::Sleep
        }
    }
}

} // verus!
