//! The host's side of a drain: the signals that arrive during one, folded into a verdict.

use vstd::prelude::*;

use crate::binary64;
use crate::hostd::quiesce::{InfraThresholds, QuiescenceDetector, QuiescenceReport};
use crate::proto::ids::TurnId;
use crate::proto::vsock::GuestToHost;

verus! {

/// What a drain has come to.
#[derive(Clone, Copy, Debug, PartialEq, Eq, Structural)]
pub enum DrainVerdict {
    /// Every layer is quiet: the VM may be snapshotted.
    Quiescent,
    /// Not yet: the migration waits or is called off.
    Busy {
        /// The turn that holds the drain up; `None` where it is the machine or storage.
        in_flight: Option<TurnId>,
    },
}

/// The signals of one drain.
pub struct DrainCoordinator {
    detector: QuiescenceDetector,
}

impl DrainCoordinator {
    /// What is known of the layers.
    pub closed spec fn layers(&self) -> QuiescenceDetector {
        self.detector
    }

    /// The verdict on what is known.
    pub open spec fn judged(&self) -> DrainVerdict {
        if self.layers().quiescent() {
            DrainVerdict::Quiescent
        } else {
            DrainVerdict::Busy { in_flight: self.layers().app.turn() }
        }
    }

    /// A drain of which nothing is known yet: every layer is active.
    pub fn new(infra: InfraThresholds) -> (c: DrainCoordinator)
        ensures
            !c.layers().app.is_gated(),
            c.layers().app.turn() is None,
            c.layers().infra.limits() == infra,
            c.layers().infra.evidence().window.len() == 0,
            !c.layers().infra.evidence().queues_quiet,
            !c.layers().storage.quiet(),
            c.judged() == (DrainVerdict::Busy { in_flight: None }),
    {
        DrainCoordinator { detector: QuiescenceDetector::new(infra) }
    }

    /// Takes a message of the guest into account. Only turn boundaries and the answer to the drain
    /// bear on quiescence.
    pub fn observe_guest(&mut self, msg: &GuestToHost)
        ensures
            final(self).layers().infra == old(self).layers().infra,
            final(self).layers().storage == old(self).layers().storage,
            match *msg {
                GuestToHost::TurnStarted { turn_id, .. } => {
                    &&& final(self).layers().app.turn() == Some(turn_id)
                    &&& final(self).layers().app.is_gated() == old(self).layers().app.is_gated()
                },
                GuestToHost::TurnEnded { .. } => {
                    &&& final(self).layers().app.turn() is None
                    &&& final(self).layers().app.is_gated() == old(self).layers().app.is_gated()
                },
                GuestToHost::DrainAck { in_flight } => {
                    &&& final(self).layers().app.turn() == in_flight
                    &&& final(self).layers().app.is_gated()
                },
                _ => final(self).layers().app == old(self).layers().app,
            },
    {
        match msg {
            GuestToHost::TurnStarted { turn_id, .. } => self.detector.app.turn_started(*turn_id),
            GuestToHost::TurnEnded { .. } => self.detector.app.turn_ended(),
            GuestToHost::DrainAck { in_flight } => self.detector.app.drain_acked(*in_flight),
            _ => {},
        }
    }

    /// Takes a sample of the machine into account: the vCPU utilization, as a bit pattern, and
    /// whether the virtio queues were quiet.
    pub fn observe_infra(&mut self, cpu_pct: u64, queues_quiet: bool)
        ensures
            final(self).layers().app == old(self).layers().app,
            final(self).layers().storage == old(self).layers().storage,
            final(self).layers().infra.limits() == old(self).layers().infra.limits(),
            final(self).layers().infra.evidence() == old(self).layers().infra.evidence().with(
                old(self).layers().infra.limits(),
                cpu_pct,
                queues_quiet,
            ),
    {
        self.detector.infra.record(cpu_pct, queues_quiet);
    }

    /// Takes note of whether the workspace sync has caught up.
    pub fn observe_storage(&mut self, caught_up: bool)
        ensures
            final(self).layers().app == old(self).layers().app,
            final(self).layers().infra == old(self).layers().infra,
            final(self).layers().storage.quiet() == caught_up,
    {
        self.detector.storage.set_caught_up(caught_up);
    }

    /// Which layers are quiet.
    pub fn report(&self) -> (report: QuiescenceReport)
        ensures
            report == (QuiescenceReport {
                app: self.layers().app.quiet(),
                infra: self.layers().infra.quiet(),
                storage: self.layers().storage.quiet(),
            }),
    {
        self.detector.report()
    }

    /// The verdict so far.
    pub fn verdict(&self) -> (verdict: DrainVerdict)
        ensures
            verdict == self.judged(),
    {
        if self.detector.is_quiescent() {
            DrainVerdict::Quiescent
        } else {
            DrainVerdict::Busy { in_flight: self.detector.app.in_flight() }
        }
    }

    /// The race rule on the host: no verdict of quiescence while a turn is reported in flight or
    /// new turns may still start.
    pub proof fn law_no_quiescence_during_a_turn(c: &DrainCoordinator)
        requires
            c.layers().app.turn() is Some || !c.layers().app.is_gated(),
        ensures
            c.judged() == (DrainVerdict::Busy { in_flight: c.layers().app.turn() }),
    {
    }
}

/// A guest counts as idle only where all that watches it agrees: its agent holds no turn and takes no
/// new one, the host has seen a full window of samples with its queues quiet, and its storage has
/// caught up. Where all agree, it counts as idle.
pub proof fn law_every_layer_has_a_say(c: &DrainCoordinator)
    ensures
        c.judged() is Quiescent <==> {
            &&& c.layers().app.is_gated()
            &&& c.layers().app.turn() is None
            &&& c.layers().infra.evidence().queues_quiet
            &&& c.layers().infra.limits().samples > 0
            &&& c.layers().infra.evidence().window.len() == c.layers().infra.limits().samples
            &&& forall|i: int|
                0 <= i < c.layers().infra.evidence().window.len() ==> binary64::less(
                    #[trigger] c.layers().infra.evidence().window[i],
                    c.layers().infra.limits().cpu_pct,
                )
            &&& c.layers().storage.quiet()
        },
        c.judged() matches DrainVerdict::Busy { in_flight } ==> in_flight == c.layers().app.turn(),
{
}

} // verus!
