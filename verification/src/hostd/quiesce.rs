//! When a VM is quiescent.
//!
//! A VM is safe to snapshot only when three layers are quiet at once: the workload (new turns are
//! gated and none is running), the machine (the vCPUs have been idle for a number of samples and
//! the virtio queues are quiet) and storage (the workspace sync has caught up). Quiescence is
//! verified, never taken for granted: a layer counts as active until there is evidence of the
//! opposite.

use std::collections::VecDeque;

use vstd::prelude::*;

use crate::binary64;
use crate::proto::ids::TurnId;

verus! {

// ---------------------------------------------------------------------------
// The workload
// ---------------------------------------------------------------------------

/// The workload as the guest reports it.
#[derive(Clone, Copy, Debug, PartialEq, Eq, Structural)]
pub struct AppLayer {
    gated: bool,
    in_flight: Option<TurnId>,
}

impl AppLayer {
    /// Whether new turns are gated.
    pub closed spec fn is_gated(&self) -> bool {
        self.gated
    }

    /// The turn reported in flight.
    pub closed spec fn turn(&self) -> Option<TurnId> {
        self.in_flight
    }

    /// Whether new turns are gated and none is running.
    pub open spec fn quiet(&self) -> bool {
        self.is_gated() && self.turn() is None
    }

    /// A layer without evidence: active.
    pub fn new() -> (layer: AppLayer)
        ensures
            !layer.is_gated(),
            layer.turn() is None,
    {
        AppLayer { gated: false, in_flight: None }
    }

    /// A turn has started.
    pub fn turn_started(&mut self, turn: TurnId)
        ensures
            final(self).turn() == Some(turn),
            final(self).is_gated() == old(self).is_gated(),
    {
        self.in_flight = Some(turn);
    }

    /// The turn has ended.
    pub fn turn_ended(&mut self)
        ensures
            final(self).turn() is None,
            final(self).is_gated() == old(self).is_gated(),
    {
        self.in_flight = None;
    }

    /// The guest answered a drain: new turns are gated, and this is what is still running.
    pub fn drain_acked(&mut self, in_flight: Option<TurnId>)
        ensures
            final(self).turn() == in_flight,
            final(self).is_gated(),
    {
        self.gated = true;
        self.in_flight = in_flight;
    }

    /// The drain was cancelled: turns may start again.
    pub fn drain_cancelled(&mut self)
        ensures
            final(self).turn() == old(self).turn(),
            !final(self).is_gated(),
    {
        self.gated = false;
    }

    /// The turn reported in flight, if any.
    pub fn in_flight(&self) -> (turn: Option<TurnId>)
        ensures
            turn == self.turn(),
    {
        self.in_flight
    }

    /// Whether new turns are gated and none is running.
    pub fn is_quiet(&self) -> (quiet: bool)
        ensures
            quiet == self.quiet(),
    {
        self.gated && self.in_flight.is_none()
    }
}

// ---------------------------------------------------------------------------
// The machine
// ---------------------------------------------------------------------------

/// When the machine counts as quiet. Percentages are compared as numbers.
#[derive(Clone, Copy, Debug)]
pub struct InfraThresholds {
    /// A sample is quiet when the vCPU utilization lies below this percentage, a binary64 number
    /// given by its bit pattern.
    pub cpu_pct: u64,
    /// How many samples in a row have to be quiet.
    pub samples: usize,
}

impl PartialEq for InfraThresholds {
    fn eq(&self, other: &InfraThresholds) -> (same: bool) {
        binary64::equals(self.cpu_pct, other.cpu_pct) && self.samples == other.samples
    }
}

impl vstd::std_specs::cmp::PartialEqSpecImpl for InfraThresholds {
    open spec fn obeys_eq_spec() -> bool {
        true
    }

    open spec fn eq_spec(&self, other: &InfraThresholds) -> bool {
        binary64::equal(self.cpu_pct, other.cpu_pct) && self.samples == other.samples
    }
}

/// What is known of the machine.
pub ghost struct InfraEvidence {
    /// The most recent samples, oldest first.
    pub window: Seq<u64>,
    /// Whether the queues were quiet at the last sample.
    pub queues_quiet: bool,
}

impl InfraEvidence {
    /// No evidence yet.
    pub open spec fn none() -> InfraEvidence {
        InfraEvidence { window: Seq::empty(), queues_quiet: false }
    }

    /// The evidence after one more sample: a full window gives up its oldest sample first.
    pub open spec fn with(
        self,
        thresholds: InfraThresholds,
        cpu_pct: u64,
        queues_quiet: bool,
    ) -> InfraEvidence {
        let kept = if self.window.len() == thresholds.samples && self.window.len() > 0 {
            self.window.skip(1)
        } else {
            self.window
        };
        InfraEvidence { window: kept.push(cpu_pct), queues_quiet }
    }

    /// Whether the evidence shows a quiet machine: the window is full, every sample in it lies
    /// below the threshold, and the queues are quiet.
    pub open spec fn quiet(self, thresholds: InfraThresholds) -> bool {
        &&& thresholds.samples > 0
        &&& self.window.len() == thresholds.samples
        &&& self.queues_quiet
        &&& forall|i: int|
            0 <= i < self.window.len() ==> binary64::less(
                #[trigger] self.window[i],
                thresholds.cpu_pct,
            )
    }

    /// The evidence after a series of samples.
    pub open spec fn after(
        self,
        thresholds: InfraThresholds,
        samples: Seq<(u64, bool)>,
    ) -> InfraEvidence
        decreases samples.len(),
    {
        if samples.len() == 0 {
            self
        } else {
            let last = samples.last();
            self.after(thresholds, samples.drop_last()).with(thresholds, last.0, last.1)
        }
    }
}

/// The machine as it was sampled.
pub struct InfraLayer {
    thresholds: InfraThresholds,
    recent: VecDeque<u64>,
    queues_quiet: bool,
}

impl InfraLayer {
    /// The thresholds.
    pub closed spec fn limits(&self) -> InfraThresholds {
        self.thresholds
    }

    /// What is known of the machine.
    pub closed spec fn evidence(&self) -> InfraEvidence {
        InfraEvidence { window: self.recent@, queues_quiet: self.queues_quiet }
    }

    /// Whether the machine is quiet.
    pub open spec fn quiet(&self) -> bool {
        self.evidence().quiet(self.limits())
    }

    /// A layer without samples: active.
    pub fn new(thresholds: InfraThresholds) -> (layer: InfraLayer)
        ensures
            layer.limits() == thresholds,
            layer.evidence() == InfraEvidence::none(),
    {
        let layer = InfraLayer { thresholds, recent: VecDeque::new(), queues_quiet: false };
        proof {
            assert(layer.evidence().window =~= Seq::<u64>::empty());
        }
        layer
    }

    /// Takes one sample: the vCPU utilization, as a bit pattern, and whether the virtio queues were
    /// quiet.
    pub fn record(&mut self, cpu_pct: u64, queues_quiet: bool)
        ensures
            final(self).limits() == old(self).limits(),
            final(self).evidence() == old(self).evidence().with(
                old(self).limits(),
                cpu_pct,
                queues_quiet,
            ),
    {
        let ghost before = self.recent@;
        if self.recent.len() == self.thresholds.samples {
            let _oldest = self.recent.pop_front();
            proof {
                if before.len() > 0 {
                    assert(self.recent@ =~= before.skip(1));
                } else {
                    assert(self.recent@ =~= before);
                }
            }
        }
        self.recent.push_back(cpu_pct);
        self.queues_quiet = queues_quiet;
    }

    /// Whether the machine is quiet.
    pub fn is_quiet(&self) -> (quiet: bool)
        ensures
            quiet == self.quiet(),
    {
        if self.thresholds.samples == 0 || self.recent.len() != self.thresholds.samples
            || !self.queues_quiet {
            return false;
        }
        let mut i: usize = 0;
        while i < self.recent.len()
            invariant
                i <= self.recent@.len(),
                forall|j: int|
                    0 <= j < i ==> binary64::less(
                        #[trigger] self.recent@[j],
                        self.thresholds.cpu_pct,
                    ),
            decreases self.recent@.len() - i,
        {
            if !binary64::less_than(self.recent[i], self.thresholds.cpu_pct) {
                proof {
                    assert(!binary64::less(self.recent@[i as int], self.thresholds.cpu_pct));
                }
                return false;
            }
            i = i + 1;
        }
        true
    }
}

/// The window holds the latest samples, as many as it has room for.
proof fn lemma_window(thresholds: InfraThresholds, samples: Seq<(u64, bool)>)
    requires
        thresholds.samples > 0,
    ensures
        ({
            let window = InfraEvidence::none().after(thresholds, samples).window;
            let n = samples.len() as int;
            let w = if n < thresholds.samples { n } else { thresholds.samples as int };
            &&& window.len() == w
            &&& forall|i: int| 0 <= i < w ==> #[trigger] window[i] == samples[n - w + i].0
        }),
    decreases samples.len(),
{
    if samples.len() > 0 {
        lemma_window(thresholds, samples.drop_last());
    }
}

/// The machine is quiet exactly when the last `samples` samples were, and the queues were at the
/// last one: anything else among them, however long ago it was otherwise quiet, holds it up until
/// it has left the window.
pub proof fn law_quiet_means_a_full_quiet_window(
    thresholds: InfraThresholds,
    samples: Seq<(u64, bool)>,
)
    requires
        thresholds.samples > 0,
    ensures
        InfraEvidence::none().after(thresholds, samples).quiet(thresholds) <==> {
            &&& samples.len() >= thresholds.samples
            &&& samples.last().1
            &&& forall|i: int|
                samples.len() - thresholds.samples <= i < samples.len() ==> binary64::less(
                    (#[trigger] samples[i]).0,
                    thresholds.cpu_pct,
                )
        },
{
    lemma_window(thresholds, samples);
    let evidence = InfraEvidence::none().after(thresholds, samples);
    let n = samples.len() as int;
    let w = thresholds.samples as int;
    if n >= w {
        assert forall|i: int| n - w <= i < n implies evidence.window[i - (n - w)] == (
        #[trigger] samples[i]).0 by {}
        assert(evidence.queues_quiet == samples.last().1);
    }
}

// ---------------------------------------------------------------------------
// Storage
// ---------------------------------------------------------------------------

/// The workspace sync.
#[derive(Clone, Copy, Debug, PartialEq, Eq, Structural)]
pub struct StorageLayer {
    caught_up: bool,
}

impl StorageLayer {
    /// Whether the sync has caught up.
    pub closed spec fn quiet(&self) -> bool {
        self.caught_up
    }

    /// A layer without evidence: active.
    pub fn new() -> (layer: StorageLayer)
        ensures
            !layer.quiet(),
    {
        StorageLayer { caught_up: false }
    }

    /// Takes note of whether the sync has caught up.
    pub fn set_caught_up(&mut self, caught_up: bool)
        ensures
            final(self).quiet() == caught_up,
    {
        self.caught_up = caught_up;
    }

    /// Whether the sync has caught up.
    pub fn is_quiet(&self) -> (quiet: bool)
        ensures
            quiet == self.quiet(),
    {
        self.caught_up
    }
}

// ---------------------------------------------------------------------------
// All three
// ---------------------------------------------------------------------------

/// Which layers are quiet.
#[derive(Clone, Copy, Debug, PartialEq, Eq, Structural)]
pub struct QuiescenceReport {
    /// The workload.
    pub app: bool,
    /// The machine.
    pub infra: bool,
    /// Storage.
    pub storage: bool,
}

impl QuiescenceReport {
    /// Whether every layer is quiet.
    pub fn is_quiescent(&self) -> (quiescent: bool)
        ensures
            quiescent == (self.app && self.infra && self.storage),
    {
        self.app && self.infra && self.storage
    }
}

/// The three layers together.
pub struct QuiescenceDetector {
    /// The workload.
    pub app: AppLayer,
    /// The machine.
    pub infra: InfraLayer,
    /// Storage.
    pub storage: StorageLayer,
}

impl QuiescenceDetector {
    /// Whether every layer is quiet.
    pub open spec fn quiescent(&self) -> bool {
        self.app.quiet() && self.infra.quiet() && self.storage.quiet()
    }

    /// A detector without evidence: every layer is active.
    pub fn new(infra: InfraThresholds) -> (detector: QuiescenceDetector)
        ensures
            !detector.app.is_gated(),
            detector.app.turn() is None,
            detector.infra.limits() == infra,
            detector.infra.evidence() == InfraEvidence::none(),
            !detector.storage.quiet(),
            !detector.app.quiet() && !detector.infra.quiet(),
    {
        QuiescenceDetector {
            app: AppLayer::new(),
            infra: InfraLayer::new(infra),
            storage: StorageLayer::new(),
        }
    }

    /// Which layers are quiet.
    pub fn report(&self) -> (report: QuiescenceReport)
        ensures
            report == (QuiescenceReport {
                app: self.app.quiet(),
                infra: self.infra.quiet(),
                storage: self.storage.quiet(),
            }),
    {
        QuiescenceReport {
            app: self.app.is_quiet(),
            infra: self.infra.is_quiet(),
            storage: self.storage.is_quiet(),
        }
    }

    /// Whether every layer is quiet.
    pub fn is_quiescent(&self) -> (quiescent: bool)
        ensures
            quiescent == self.quiescent(),
    {
        self.report().is_quiescent()
    }
}

} // verus!
