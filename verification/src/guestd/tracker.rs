//! The turn state of a wrapped workload, shared between those who learn of turns and those who are
//! asked about them.

use std::sync::Arc;

use vstd::prelude::*;
use vstd::rwlock::{RwLock, RwLockPredicate};

use crate::guestd::wrap;
use crate::guestd::wrap::{TurnSignal, TurnState};
use crate::proto::ids::TurnId;

verus! {

/// Demands of the state that a tracker shares that boundaries alone have led to it.
pub struct OnlyBoundaries {
    /// The state that the tracker began with.
    pub begun: TurnState,
}

impl RwLockPredicate<TurnState> for OnlyBoundaries {
    open spec fn inv(self, v: TurnState) -> bool {
        self.begun.leads_to(v)
    }
}

/// The turn state that the reader of the child's output and the answerers of drains share. The
/// reader runs for as long as the child does, so a drain is answered from the state of the moment
/// even where no host was connected when it changed. Clones share one state: each boundary that any
/// holder takes into account is one step of [`TurnState`], and nothing else changes the state. How
/// many steps the other holders have made at a moment is left open.
pub struct TurnTracker {
    shared: Arc<RwLock<TurnState, OnlyBoundaries>>,
}

impl TurnTracker {
    /// The state that the tracker, and every clone of it, began with.
    pub closed spec fn begun(&self) -> TurnState {
        self.shared.pred().begun
    }

    /// Whether `turn` is what runs after boundaries, some or none, of the tracker's holders.
    pub closed spec fn can_show(&self, turn: Option<TurnId>) -> bool {
        exists|state: TurnState| #[trigger]
            self.begun().leads_to(state) && turn == state.current()
    }

    /// A tracker of a child between turns, none opened yet.
    pub fn new() -> (tracker: TurnTracker)
        ensures
            tracker.begun() == (TurnState { in_turn: false, last_id: 0 }),
    {
        let start = TurnState::new();
        proof {
            wrap::lemma_leads_to_itself(start);
        }
        TurnTracker {
            shared: Arc::new(RwLock::new(start, Ghost(OnlyBoundaries { begun: start }))),
        }
    }

    /// Takes a boundary into account: the shared state makes that one step of [`TurnState`].
    pub fn apply(&self, signal: TurnSignal) {
        let (mut state, handle) = self.shared.acquire_write();
        proof {
            wrap::lemma_leads_on(self.begun(), state, signal);
        }
        state.apply(signal);
        handle.release_write(state);
    }

    /// The running turn, if any: the one that the holders' boundaries so far have led to. Which
    /// boundaries those are at the moment of the call depends on the other holders.
    pub fn in_flight(&self) -> (turn: Option<TurnId>)
        ensures
            self.can_show(turn),
    {
        let handle = self.shared.acquire_read();
        let turn = handle.borrow().in_flight();
        proof {
            assert(self.begun().leads_to(handle.view()));
        }
        handle.release_read();
        turn
    }
}

impl Clone for TurnTracker {
    fn clone(&self) -> (copy: TurnTracker)
        ensures
            copy == *self,
    {
        TurnTracker { shared: self.shared.clone() }
    }
}

} // verus!
