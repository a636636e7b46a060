//! The book of the turns that a load puts on the wire to one guest.
//!
//! The load is open: many turns are outstanding at once on one connection, and each ends when the
//! guest reports it, when the connection is gone, or when its deadline has passed. The last is what
//! a client sees as a request that never came back: it is counted.

use vstd::prelude::*;

use crate::ordered::OrderedMap;
use crate::proto::ids::TurnId;
use crate::proto::vsock::{GuestToHost, HostToGuest};

verus! {

/// The turns outstanding at one guest, and how many were dropped.
pub struct VsockTurnDriver {
    waiting: OrderedMap<TurnId, ()>,
    lost: u64,
}

impl VsockTurnDriver {
    /// The numbers of the outstanding turns.
    pub closed spec fn outstanding(&self) -> Set<u64> {
        self.waiting@.dom()
    }

    /// How many turns were dropped, modulo 2^64.
    pub closed spec fn lost(&self) -> u64 {
        self.lost
    }

    /// No turn outstanding, none dropped.
    pub fn new() -> (driver: VsockTurnDriver)
        ensures
            driver.outstanding() == Set::<u64>::empty(),
            driver.lost() == 0,
    {
        let driver = VsockTurnDriver { waiting: OrderedMap::new(), lost: 0 };
        proof {
            assert(driver.outstanding() =~= Set::empty());
        }
        driver
    }

    /// How many turns were dropped: no completion within their deadline.
    pub fn dropped(&self) -> (n: u64)
        ensures
            n == self.lost(),
    {
        self.lost
    }

    /// Puts turn `turn` on the wire: it is outstanding, and this is its message.
    pub fn run_turn(&mut self, turn: u64) -> (msg: HostToGuest)
        ensures
            final(self).outstanding() == old(self).outstanding().insert(turn),
            final(self).lost() == old(self).lost(),
            msg == (HostToGuest::RunTurn { turn_id: TurnId { index: turn } }),
    {
        let turn_id = TurnId::from_u64(turn);
        self.waiting.insert(turn_id, ());
        proof {
            assert(self.outstanding() =~= old(self).outstanding().insert(turn));
        }
        HostToGuest::RunTurn { turn_id }
    }

    /// The turn's message could not be sent: it is outstanding no more, and not counted as dropped.
    pub fn unsent(&mut self, turn: u64)
        ensures
            final(self).outstanding() == old(self).outstanding().remove(turn),
            final(self).lost() == old(self).lost(),
    {
        let _ = self.waiting.remove(&TurnId::from_u64(turn));
        proof {
            assert(self.outstanding() =~= old(self).outstanding().remove(turn));
        }
    }

    /// The guest's message arrived: the turn that it completes, where it completes one that is
    /// outstanding.
    pub fn heard(&mut self, msg: &GuestToHost) -> (ended: Option<TurnId>)
        ensures
            final(self).lost() == old(self).lost(),
            match *msg {
                GuestToHost::TurnEnded { turn_id, .. } => {
                    &&& final(self).outstanding() == old(self).outstanding().remove(turn_id.index)
                    &&& ended == if old(self).outstanding().contains(turn_id.index) {
                        Some(turn_id)
                    } else {
                        None
                    }
                },
                _ => final(self).outstanding() == old(self).outstanding() && ended is None,
            },
    {
        match msg {
            GuestToHost::TurnEnded { turn_id, .. } => {
                let found = self.waiting.remove(turn_id);
                proof {
                    assert(self.outstanding() =~= old(self).outstanding().remove(turn_id.index));
                }
                match found {
                    Some(_) => Some(*turn_id),
                    None => None,
                }
            },
            _ => None,
        }
    }

    /// The turn's deadline has passed without a completion: it is outstanding no more, and dropped.
    pub fn expired(&mut self, turn: u64)
        ensures
            final(self).outstanding() == old(self).outstanding().remove(turn),
            final(self).lost() == old(self).lost().wrapping_add(1),
    {
        let _ = self.waiting.remove(&TurnId::from_u64(turn));
        self.lost = self.lost.wrapping_add(1);
        proof {
            assert(self.outstanding() =~= old(self).outstanding().remove(turn));
        }
    }

    /// The connection is gone: no turn is outstanding any more.
    pub fn closed(&mut self)
        ensures
            final(self).outstanding() == Set::<u64>::empty(),
            final(self).lost() == old(self).lost(),
    {
        self.waiting = OrderedMap::new();
        proof {
            assert(self.outstanding() =~= Set::empty());
        }
    }
}

} // verus!
