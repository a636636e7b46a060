//! Which VM to move where.
//!
//! Given where the VMs live, how loaded each host is and how idle each VM is, [`pick_victim`]
//! chooses the one move that relieves the most: the most idle VM of the hottest host, to the
//! coolest host that can restore it. Where no move helps it answers `None` rather than guess.

use vstd::prelude::*;

use crate::binary64;
use crate::ordered;
use crate::ordered::{Key, OrderedMap};
use crate::proto::compat::CompatClass;
use crate::proto::ids::{HostId, VmId};
use crate::text;
use crate::time::Duration;

verus! {

// ---------------------------------------------------------------------------
// Pressure
// ---------------------------------------------------------------------------

/// The memory pressure of a host, from zero (idle) to one (saturated), held as the bit pattern of
/// a binary64 number. Two pressures are equal where the numbers are.
#[derive(Clone, Copy, Debug)]
pub struct Pressure {
    bits: u64,
}

impl PartialEq for Pressure {
    fn eq(&self, other: &Pressure) -> (same: bool) {
        binary64::equals(self.bits, other.bits)
    }
}

impl vstd::std_specs::cmp::PartialEqSpecImpl for Pressure {
    open spec fn obeys_eq_spec() -> bool {
        true
    }

    open spec fn eq_spec(&self, other: &Pressure) -> bool {
        binary64::equal(self@, other@)
    }
}

/// A reading brought into the range from zero to one. What is no finite number counts as no
/// pressure.
pub open spec fn tamed(bits: u64) -> u64 {
    if !binary64::is_finite(bits) {
        0
    } else if binary64::rank(bits) < 0 {
        0
    } else if binary64::rank(bits) > binary64::ONE {
        binary64::ONE
    } else {
        bits
    }
}

impl View for Pressure {
    type V = u64;

    /// The bit pattern.
    closed spec fn view(&self) -> u64 {
        self.bits
    }
}

impl Pressure {
    #[verifier::type_invariant]
    spec fn in_range(self) -> bool {
        tame(self.bits)
    }

    /// The pressure that a reading shows.
    pub fn new(bits: u64) -> (p: Pressure)
        ensures
            p@ == tamed(bits),
    {
        if !binary64::finite(bits) || binary64::less_than(bits, 0) {
            Pressure { bits: 0 }
        } else if binary64::less_than(binary64::ONE, bits) {
            Pressure { bits: binary64::ONE }
        } else {
            Pressure { bits }
        }
    }

    /// The bit pattern, which is always one of a number from zero to one.
    pub fn get(self) -> (bits: u64)
        ensures
            bits == self@,
            tame(bits),
    {
        proof {
            use_type_invariant(&self);
        }
        self.bits
    }
}

/// Whether a bit pattern stands for a number from zero to one.
pub open spec fn tame(bits: u64) -> bool {
    !binary64::is_nan(bits) && 0 <= binary64::rank(bits) <= binary64::ONE
}

/// Taming leads into the range and changes nothing that is there already.
pub proof fn law_tamed_is_in_range(bits: u64)
    ensures
        tame(tamed(bits)),
        tame(bits) ==> tamed(bits) == bits,
{
}

// ---------------------------------------------------------------------------
// Placement
// ---------------------------------------------------------------------------

/// Which VMs live on which host.
pub struct Placement {
    hosts: OrderedMap<HostId, Vec<VmId>>,
}

impl Placement {
    /// The hosts and their VMs.
    pub closed spec fn table(&self) -> Map<Seq<char>, Vec<VmId>> {
        self.hosts@
    }

    /// The VMs on a host, in the order in which they were assigned.
    pub open spec fn on(&self, host: Seq<char>) -> Seq<VmId> {
        if self.table().contains_key(host) {
            self.table()[host]@
        } else {
            Seq::empty()
        }
    }

    /// A placement without hosts.
    pub fn new() -> (placement: Placement)
        ensures
            placement.table() == Map::<Seq<char>, Vec<VmId>>::empty(),
            forall|h: Seq<char>| placement.on(h) == Seq::<VmId>::empty(),
    {
        Placement { hosts: OrderedMap::new() }
    }

    /// Records that `vm` lives on `host`.
    pub fn assign(&mut self, host: HostId, vm: VmId)
        ensures
            forall|h: Seq<char>|
                final(self).on(h) == if h == host@ {
                    old(self).on(h).push(vm)
                } else {
                    old(self).on(h)
                },
            final(self).table().dom() == old(self).table().dom().insert(host@),
    {
        let mut vms: Vec<VmId> = match self.hosts.remove(&host) {
            Some(vms) => vms,
            None => Vec::new(),
        };
        vms.push(vm);
        self.hosts.insert(host, vms);
        proof {
            assert(self.table().dom() =~= old(self).table().dom().insert(host@));
        }
    }

    /// The VMs on `host`; none on a host that is not known.
    pub fn vms_on(&self, host: &HostId) -> (vms: Vec<VmId>)
        ensures
            vms@ == self.on(host@),
    {
        let mut out: Vec<VmId> = Vec::new();
        if let Some(vms) = self.hosts.get(host) {
            let mut i: usize = 0;
            while i < vms.len()
                invariant
                    i <= vms@.len(),
                    out@ == vms@.take(i as int),
                decreases vms@.len() - i,
            {
                out.push(vms[i]);
                i = i + 1;
            }
            proof {
                assert(vms@.take(i as int) =~= vms@);
            }
        }
        out
    }

    /// The hosts, in ascending order of their names.
    pub fn hosts(&self) -> (hosts: Vec<HostId>)
        ensures
            forall|h: Seq<char>|
                self.table().contains_key(h) <==> exists|i: int|
                    0 <= i < hosts@.len() && (#[trigger] hosts@[i])@ == h,
            forall|i: int, j: int|
                0 <= i < j < hosts@.len() ==> text::comes_before(
                    (#[trigger] hosts@[i])@,
                    (#[trigger] hosts@[j])@,
                ),
    {
        let entries = self.hosts.entries();
        let mut hosts: Vec<HostId> = Vec::new();
        let mut i: usize = 0;
        while i < entries.len()
            invariant
                i <= entries@.len(),
                i == hosts@.len(),
                forall|j: int| 0 <= j < i ==> (#[trigger] hosts@[j])@ == entries@[j].0@,
            decreases entries@.len() - i,
        {
            hosts.push(entries[i].0.clone());
            i = i + 1;
        }
        proof {
            let pairs = self.hosts.pairs();
            assert forall|h: Seq<char>| self.table().contains_key(h) implies exists|i: int|
                0 <= i < hosts@.len() && (#[trigger] hosts@[i])@ == h by {
                let i = choose|i: int| ordered::entry_at(pairs, h, i);
                assert(ordered::entry_at(pairs, h, i));
                assert(hosts@[i]@ == h);
            }
            assert forall|i: int| 0 <= i < hosts@.len() implies self.table().contains_key(
                (#[trigger] hosts@[i])@,
            ) by {
                ordered::lemma_entry(pairs, i);
            }
            assert forall|i: int, j: int| 0 <= i < j < hosts@.len() implies text::comes_before(
                (#[trigger] hosts@[i])@,
                (#[trigger] hosts@[j])@,
            ) by {
                assert(HostId::before(pairs[i].0.key(), pairs[j].0.key()));
            }
        }
        hosts
    }
}

// ---------------------------------------------------------------------------
// The choice
// ---------------------------------------------------------------------------

/// One move: relocate `vm` from `from` to `to`.
#[derive(Clone, Debug, PartialEq, Eq)]
pub struct Rebalance {
    /// The VM to move.
    pub vm: VmId,
    /// The overloaded host.
    pub from: HostId,
    /// The cooler host.
    pub to: HostId,
}

/// Whether host `a` is hotter than host `b`, the lower name winning a tie.
pub open spec fn hotter(pressure: Map<Seq<char>, Pressure>, a: Seq<char>, b: Seq<char>) -> bool {
    let (pa, pb) = (binary64::total_rank(pressure[a]@), binary64::total_rank(pressure[b]@));
    pa > pb || (pa == pb && text::comes_before(a, b))
}

/// Whether host `a` is cooler than host `b`, the lower name winning a tie.
pub open spec fn cooler(pressure: Map<Seq<char>, Pressure>, a: Seq<char>, b: Seq<char>) -> bool {
    let (pa, pb) = (binary64::total_rank(pressure[a]@), binary64::total_rank(pressure[b]@));
    pa < pb || (pa == pb && text::comes_before(a, b))
}

/// Whether `host` is the hottest host.
pub open spec fn is_hottest(pressure: Map<Seq<char>, Pressure>, host: Seq<char>) -> bool {
    &&& pressure.contains_key(host)
    &&& forall|other: Seq<char>|
        #[trigger] pressure.contains_key(other) && other != host ==> hotter(pressure, host, other)
}

/// Whether `host` can take a snapshot of `from`: it is another host, and its class is known and
/// compatible.
pub open spec fn can_take(
    pressure: Map<Seq<char>, Pressure>,
    compat: Map<Seq<char>, CompatClass>,
    from: Seq<char>,
    host: Seq<char>,
) -> bool {
    &&& pressure.contains_key(host)
    &&& host != from
    &&& compat.contains_key(host)
    &&& compat[from].compatible(&compat[host])
}

/// Whether `host` is the coolest of the hosts that can take a snapshot of `from`.
pub open spec fn is_coolest(
    pressure: Map<Seq<char>, Pressure>,
    compat: Map<Seq<char>, CompatClass>,
    from: Seq<char>,
    host: Seq<char>,
) -> bool {
    &&& can_take(pressure, compat, from, host)
    &&& forall|other: Seq<char>|
        #[trigger] can_take(pressure, compat, from, other) && other != host ==> cooler(
            pressure,
            host,
            other,
        )
}

/// Whether VM `a` is more idle than VM `b`, the lower id winning a tie. Both have a reading.
pub open spec fn more_idle(idle: Map<u128, Duration>, a: VmId, b: VmId) -> bool {
    let (here, there) = (idle[a.bits]@, idle[b.bits]@);
    here > there || (here == there && a.bits < b.bits)
}

/// Whether `vm` is the most idle of those of `vms` that have a reading. A VM without one counts as
/// busy and is never chosen.
pub open spec fn is_most_idle(vms: Seq<VmId>, idle: Map<u128, Duration>, vm: VmId) -> bool {
    &&& vms.contains(vm)
    &&& idle.contains_key(vm.bits)
    &&& forall|i: int|
        0 <= i < vms.len() && idle.contains_key((#[trigger] vms[i]).bits) ==> vms[i] == vm
            || more_idle(idle, vm, vms[i])
}

/// Whether moving `vm` from `from` to `to` is the move to make: `from` is the hottest host and lies
/// above the watermark, `to` is the coolest host that can take its snapshots and is cooler than
/// `from`, and `vm` is the most idle VM of `from`, by its reading.
pub open spec fn is_best_move(
    placement: &Placement,
    pressure: Map<Seq<char>, Pressure>,
    idle: Map<u128, Duration>,
    high_watermark: Pressure,
    compat: Map<Seq<char>, CompatClass>,
    vm: VmId,
    from: Seq<char>,
    to: Seq<char>,
) -> bool {
    &&& is_hottest(pressure, from)
    &&& binary64::less(high_watermark@, pressure[from]@)
    &&& compat.contains_key(from)
    &&& is_coolest(pressure, compat, from, to)
    &&& binary64::less(pressure[to]@, pressure[from]@)
    &&& is_most_idle(placement.on(from), idle, vm)
}

/// There is at most one hottest host.
proof fn lemma_one_hottest(pressure: Map<Seq<char>, Pressure>, a: Seq<char>, b: Seq<char>)
    requires
        is_hottest(pressure, a),
        is_hottest(pressure, b),
    ensures
        a == b,
{
    if a != b {
        assert(hotter(pressure, a, b));
        assert(hotter(pressure, b, a));
        text::lemma_order_total(a, a);
        if text::comes_before(a, b) && text::comes_before(b, a) {
            text::lemma_order_transitive(a, b, a);
        }
    }
}

/// There is at most one coolest host.
proof fn lemma_one_coolest(
    pressure: Map<Seq<char>, Pressure>,
    compat: Map<Seq<char>, CompatClass>,
    from: Seq<char>,
    a: Seq<char>,
    b: Seq<char>,
)
    requires
        is_coolest(pressure, compat, from, a),
        is_coolest(pressure, compat, from, b),
    ensures
        a == b,
{
    if a != b {
        assert(cooler(pressure, a, b));
        assert(cooler(pressure, b, a));
        text::lemma_order_total(a, a);
        if text::comes_before(a, b) && text::comes_before(b, a) {
            text::lemma_order_transitive(a, b, a);
        }
    }
}

/// The choice is deterministic: there is at most one best move.
pub proof fn law_best_move_is_unique(
    placement: &Placement,
    pressure: Map<Seq<char>, Pressure>,
    idle: Map<u128, Duration>,
    high_watermark: Pressure,
    compat: Map<Seq<char>, CompatClass>,
    a: (VmId, Seq<char>, Seq<char>),
    b: (VmId, Seq<char>, Seq<char>),
)
    requires
        is_best_move(placement, pressure, idle, high_watermark, compat, a.0, a.1, a.2),
        is_best_move(placement, pressure, idle, high_watermark, compat, b.0, b.1, b.2),
    ensures
        a == b,
{
    lemma_one_hottest(pressure, a.1, b.1);
    lemma_one_coolest(pressure, compat, a.1, a.2, b.2);
    let vms = placement.on(a.1);
    let i = choose|i: int| 0 <= i < vms.len() && vms[i] == a.0;
    let j = choose|j: int| 0 <= j < vms.len() && vms[j] == b.0;
    assert(vms[i] == b.0 || more_idle(idle, b.0, vms[i]));
    assert(vms[j] == a.0 || more_idle(idle, a.0, vms[j]));
}

/// A best move is worth making: the source lies above the watermark and holds the VM, and the
/// target is another host that can restore the snapshot and is strictly cooler than the source.
pub proof fn law_best_move_relieves(
    placement: &Placement,
    pressure: Map<Seq<char>, Pressure>,
    idle: Map<u128, Duration>,
    high_watermark: Pressure,
    compat: Map<Seq<char>, CompatClass>,
    vm: VmId,
    from: Seq<char>,
    to: Seq<char>,
)
    requires
        is_best_move(placement, pressure, idle, high_watermark, compat, vm, from, to),
    ensures
        from != to,
        placement.on(from).contains(vm),
        compat[from].compatible(&compat[to]),
        binary64::rank(pressure[to]@) < binary64::rank(pressure[from]@),
        binary64::rank(high_watermark@) < binary64::rank(pressure[from]@),
{
}

/// No VM is chosen on missing evidence: where a VM is moved, its idleness was read. Where that of no
/// VM on the hottest host was, there is no move.
pub proof fn law_no_move_on_missing_evidence(
    placement: &Placement,
    pressure: Map<Seq<char>, Pressure>,
    idle: Map<u128, Duration>,
    high_watermark: Pressure,
    compat: Map<Seq<char>, CompatClass>,
    hottest: Seq<char>,
)
    requires
        is_hottest(pressure, hottest),
    ensures
        forall|vm: VmId, from: Seq<char>, to: Seq<char>| #[trigger]
            is_best_move(placement, pressure, idle, high_watermark, compat, vm, from, to)
                ==> from == hottest && idle.contains_key(vm.bits),
        (forall|i: int|
            0 <= i < placement.on(hottest).len() ==> !idle.contains_key(
                (#[trigger] placement.on(hottest)[i]).bits,
            )) ==> forall|vm: VmId, from: Seq<char>, to: Seq<char>|
            !#[trigger] is_best_move(
                placement,
                pressure,
                idle,
                high_watermark,
                compat,
                vm,
                from,
                to,
            ),
{
    assert forall|vm: VmId, from: Seq<char>, to: Seq<char>| #[trigger]
        is_best_move(
            placement,
            pressure,
            idle,
            high_watermark,
            compat,
            vm,
            from,
            to,
        ) implies from == hottest by {
        lemma_one_hottest(pressure, from, hottest);
    }
}

/// The position of the hottest host, the lower name winning a tie.
fn hottest_host(pressure: &OrderedMap<HostId, Pressure>) -> (at: Option<usize>)
    ensures
        match at {
            Some(i) => i < pressure.pairs().len() && is_hottest(
                pressure@,
                pressure.pairs()[i as int].0@,
            ),
            None => pressure.pairs().len() == 0,
        },
{
    let entries = pressure.entries();
    if entries.len() == 0 {
        return None;
    }
    let mut best: usize = 0;
    let mut i: usize = 1;
    while i < entries.len()
        invariant
            best < i <= entries@.len(),
            forall|j: int|
                #![trigger entries@[j]]
                0 <= j < i && j != best ==> {
                    let (pj, pb) = (
                        binary64::total_rank(entries@[j].1@),
                        binary64::total_rank(entries@[best as int].1@),
                    );
                    pj < pb || (pj == pb && best < j)
                },
        decreases entries@.len() - i,
    {
        if binary64::totally_less(entries[best].1.get(), entries[i].1.get()) {
            best = i;
        }
        i = i + 1;
    }
    proof {
        let pairs = pressure.pairs();
        let h = pairs[best as int].0@;
        ordered::lemma_entry(pairs, best as int);
        assert forall|other: Seq<char>| #[trigger]
            pressure@.contains_key(other) && other != h implies hotter(pressure@, h, other) by {
            let j = choose|j: int| ordered::entry_at(pairs, other, j);
            assert(ordered::entry_at(pairs, other, j));
            ordered::lemma_entry(pairs, j);
            assert(entries@[j] == pairs[j]);
            if best < j {
                assert(HostId::before(pairs[best as int].0.key(), pairs[j].0.key()));
            }
        }
    }
    Some(best)
}

/// The position of the coolest host that can take a snapshot of `from`, whose class is
/// `source_class`; the lower name winning a tie.
fn coolest_compatible_host(
    pressure: &OrderedMap<HostId, Pressure>,
    from: &HostId,
    source_class: &CompatClass,
    compat: &OrderedMap<HostId, CompatClass>,
) -> (at: Option<usize>)
    requires
        compat@.contains_key(from@),
        compat@[from@] == *source_class,
    ensures
        match at {
            Some(i) => i < pressure.pairs().len() && is_coolest(
                pressure@,
                compat@,
                from@,
                pressure.pairs()[i as int].0@,
            ),
            None => forall|h: Seq<char>| !can_take(pressure@, compat@, from@, h),
        },
{
    let entries = pressure.entries();
    let ghost pairs = pressure.pairs();
    let mut best: Option<usize> = None;
    let mut i: usize = 0;
    while i < entries.len()
        invariant
            i <= entries@.len(),
            entries@ == pairs,
            pairs == pressure.pairs(),
            ordered::ascending(pairs),
            compat@.contains_key(from@),
            compat@[from@] == *source_class,
            match best {
                None => forall|j: int|
                    0 <= j < i ==> !can_take(pressure@, compat@, from@, (#[trigger] pairs[j]).0@),
                Some(b) => {
                    &&& b < i
                    &&& can_take(pressure@, compat@, from@, pairs[b as int].0@)
                    &&& forall|j: int|
                        #![trigger pairs[j]]
                        0 <= j < i && j != b && can_take(pressure@, compat@, from@, pairs[j].0@)
                            ==> {
                            let (pj, pb) = (
                                binary64::total_rank(pairs[j].1@),
                                binary64::total_rank(pairs[b as int].1@),
                            );
                            pb < pj || (pj == pb && b < j)
                        }
                },
            },
        decreases entries@.len() - i,
    {
        proof {
            ordered::lemma_entry(pairs, i as int);
        }
        let fits: bool = if entries[i].0.same(from) {
            false
        } else {
            match compat.get(&entries[i].0) {
                Some(target) => source_class.compatible_with(target),
                None => false,
            }
        };
        if fits {
            match best {
                None => {
                    best = Some(i);
                },
                Some(b) => {
                    if binary64::totally_less(entries[i].1.get(), entries[b].1.get()) {
                        best = Some(i);
                    }
                },
            }
        }
        i = i + 1;
    }
    proof {
        assert forall|other: Seq<char>| can_take(pressure@, compat@, from@, other) implies exists|
            j: int,
        |
            ordered::entry_at(pairs, other, j) by {}
        if let Some(b) = best {
            let h = pairs[b as int].0@;
            ordered::lemma_entry(pairs, b as int);
            assert forall|other: Seq<char>| #[trigger]
                can_take(pressure@, compat@, from@, other) && other != h implies cooler(
                pressure@,
                h,
                other,
            ) by {
                let j = choose|j: int| ordered::entry_at(pairs, other, j);
                assert(ordered::entry_at(pairs, other, j));
                ordered::lemma_entry(pairs, j);
                if b < j {
                    assert(HostId::before(pairs[b as int].0.key(), pairs[j].0.key()));
                }
            }
        } else {
            assert forall|h: Seq<char>| !can_take(pressure@, compat@, from@, h) by {
                if can_take(pressure@, compat@, from@, h) {
                    let j = choose|j: int| ordered::entry_at(pairs, h, j);
                    assert(ordered::entry_at(pairs, h, j));
                    assert(!can_take(pressure@, compat@, from@, pairs[j].0@));
                }
            }
        }
    }
    best
}

/// The most idle of those of `vms` that have a reading, the lower id winning a tie.
fn most_idle_vm(vms: &Vec<VmId>, idle: &OrderedMap<VmId, Duration>) -> (vm: Option<VmId>)
    ensures
        match vm {
            Some(v) => is_most_idle(vms@, idle@, v),
            None => forall|i: int|
                0 <= i < vms@.len() ==> !idle@.contains_key((#[trigger] vms@[i]).bits),
        },
{
    let mut best: Option<(VmId, Duration)> = None;
    let mut i: usize = 0;
    while i < vms.len()
        invariant
            i <= vms@.len(),
            match best {
                None => forall|j: int|
                    0 <= j < i ==> !idle@.contains_key((#[trigger] vms@[j]).bits),
                Some((vm, gap)) => {
                    &&& vms@.contains(vm)
                    &&& idle@.contains_key(vm.bits)
                    &&& idle@[vm.bits]@ == gap@
                    &&& forall|j: int|
                        0 <= j < i && idle@.contains_key((#[trigger] vms@[j]).bits) ==> vms@[j]
                            == vm || more_idle(idle@, vm, vms@[j])
                },
            },
        decreases vms@.len() - i,
    {
        let vm = vms[i];
        if let Some(reading) = idle.get(&vm) {
            let gap: Duration = *reading;
            let better: bool = match &best {
                None => true,
                Some((held, longest)) => longest.shorter_than(&gap) || (!gap.shorter_than(longest)
                    && vm.bits < held.bits),
            };
            if better {
                best = Some((vm, gap));
            }
        }
        i = i + 1;
    }
    match best {
        Some((vm, _)) => Some(vm),
        None => None,
    }
}

/// Chooses the one move that best relieves memory pressure, or `None` where no move helps. A VM whose
/// idleness was not read is never chosen.
pub fn pick_victim(
    placement: &Placement,
    pressure: &OrderedMap<HostId, Pressure>,
    idle: &OrderedMap<VmId, Duration>,
    high_watermark: Pressure,
    compat: &OrderedMap<HostId, CompatClass>,
) -> (pick: Option<Rebalance>)
    ensures
        match pick {
            Some(mv) => is_best_move(
                placement,
                pressure@,
                idle@,
                high_watermark,
                compat@,
                mv.vm,
                mv.from@,
                mv.to@,
            ),
            None => forall|vm: VmId, from: Seq<char>, to: Seq<char>|
                !is_best_move(
                    placement,
                    pressure@,
                    idle@,
                    high_watermark,
                    compat@,
                    vm,
                    from,
                    to,
                ),
        },
{
    let entries = pressure.entries();
    let ghost pairs = pressure.pairs();
    let hottest: usize = match hottest_host(pressure) {
        Some(at) => at,
        None => {
            return None;
        },
    };
    let from = &entries[hottest].0;
    let heat: u64 = entries[hottest].1.get();
    proof {
        ordered::lemma_entry(pairs, hottest as int);
        assert forall|other: Seq<char>| is_hottest(pressure@, other) implies other == from@ by {
            lemma_one_hottest(pressure@, other, from@);
        }
    }
    if binary64::less_or_equal(heat, high_watermark.get()) {
        return None;
    }
    let source_class = match compat.get(from) {
        Some(class) => class,
        None => {
            return None;
        },
    };
    let coolest: usize = match coolest_compatible_host(pressure, from, source_class, compat) {
        Some(at) => at,
        None => {
            return None;
        },
    };
    let to = &entries[coolest].0;
    let cool: u64 = entries[coolest].1.get();
    proof {
        ordered::lemma_entry(pairs, coolest as int);
        assert forall|other: Seq<char>| is_coolest(
            pressure@,
            compat@,
            from@,
            other,
        ) implies other == to@ by {
            lemma_one_coolest(pressure@, compat@, from@, other, to@);
        }
    }
    if binary64::less_or_equal(heat, cool) {
        return None;
    }
    match most_idle_vm(&placement.vms_on(from), idle) {
        Some(vm) => Some(Rebalance { vm, from: from.clone(), to: to.clone() }),
        None => None,
    }
}

/// The move goes to the coolest host that can take it, by the pressures themselves: no other host
/// with a reading whose class is known and compatible has a lower one, and of those whose reading is
/// the same the target comes first by name.
pub proof fn law_target_is_the_coolest(
    placement: &Placement,
    pressure: Map<Seq<char>, Pressure>,
    idle: Map<u128, Duration>,
    high_watermark: Pressure,
    compat: Map<Seq<char>, CompatClass>,
    vm: VmId,
    from: Seq<char>,
    to: Seq<char>,
    other: Seq<char>,
)
    requires
        is_best_move(placement, pressure, idle, high_watermark, compat, vm, from, to),
        pressure.contains_key(other),
        compat.contains_key(other),
        compat[from].compatible(&compat[other]),
        other != from,
        other != to,
    ensures
        binary64::total_rank(pressure[to]@) <= binary64::total_rank(pressure[other]@),
        binary64::total_rank(pressure[to]@) == binary64::total_rank(pressure[other]@)
            ==> text::comes_before(to, other),
{
    assert(can_take(pressure, compat, from, other));
}

/// The move leaves the hottest host, by the pressures themselves: no other host with a reading has a
/// higher one, and of those whose reading is the same the source comes first by name. It is a host
/// whose reading lies above the watermark, as numbers go.
pub proof fn law_source_is_the_hottest(
    placement: &Placement,
    pressure: Map<Seq<char>, Pressure>,
    idle: Map<u128, Duration>,
    high_watermark: Pressure,
    compat: Map<Seq<char>, CompatClass>,
    vm: VmId,
    from: Seq<char>,
    to: Seq<char>,
    other: Seq<char>,
)
    requires
        is_best_move(placement, pressure, idle, high_watermark, compat, vm, from, to),
        pressure.contains_key(other),
        other != from,
    ensures
        binary64::total_rank(pressure[other]@) <= binary64::total_rank(pressure[from]@),
        binary64::total_rank(pressure[from]@) == binary64::total_rank(pressure[other]@)
            ==> text::comes_before(from, other),
        binary64::rank(high_watermark@) < binary64::rank(pressure[from]@),
{
}

/// The VM that moves lives on the source and has been idle at least as long, by its reading, as every
/// other VM there that has one; of those idle just as long it has the lowest id.
pub proof fn law_victim_is_the_most_idle(
    placement: &Placement,
    pressure: Map<Seq<char>, Pressure>,
    idle: Map<u128, Duration>,
    high_watermark: Pressure,
    compat: Map<Seq<char>, CompatClass>,
    vm: VmId,
    from: Seq<char>,
    to: Seq<char>,
    i: int,
)
    requires
        is_best_move(placement, pressure, idle, high_watermark, compat, vm, from, to),
        0 <= i < placement.on(from).len(),
        idle.contains_key(placement.on(from)[i].bits),
    ensures
        idle.contains_key(vm.bits),
        placement.on(from).contains(vm),
        idle[placement.on(from)[i].bits]@ <= idle[vm.bits]@,
        idle[placement.on(from)[i].bits]@ == idle[vm.bits]@ ==> vm.bits
            <= placement.on(from)[i].bits,
{
}

/// A move is made wherever one helps: where the hottest host lies above the watermark, holds a VM
/// with a reading, and another host of a compatible class is strictly cooler, there is a best move.
pub proof fn law_move_is_owed(
    placement: &Placement,
    pressure: Map<Seq<char>, Pressure>,
    idle: Map<u128, Duration>,
    high_watermark: Pressure,
    compat: Map<Seq<char>, CompatClass>,
    vm: VmId,
    from: Seq<char>,
    to: Seq<char>,
)
    requires
        pressure.contains_key(from),
        forall|other: Seq<char>| #[trigger]
            pressure.contains_key(other) && other != from ==> binary64::total_rank(
                pressure[other]@,
            ) < binary64::total_rank(pressure[from]@),
        !binary64::is_nan(high_watermark@),
        !binary64::is_nan(pressure[from]@),
        !binary64::is_nan(pressure[to]@),
        binary64::rank(high_watermark@) < binary64::rank(pressure[from]@),
        compat.contains_key(from),
        to != from,
        pressure.contains_key(to),
        compat.contains_key(to),
        compat[from].compatible(&compat[to]),
        forall|other: Seq<char>| #[trigger]
            pressure.contains_key(other) && other != from && other != to && compat.contains_key(
                other,
            ) && compat[from].compatible(&compat[other]) ==> binary64::total_rank(pressure[to]@)
                < binary64::total_rank(pressure[other]@),
        binary64::rank(pressure[to]@) < binary64::rank(pressure[from]@),
        placement.on(from).contains(vm),
        idle.contains_key(vm.bits),
        forall|i: int|
            0 <= i < placement.on(from).len() && idle.contains_key(
                (#[trigger] placement.on(from)[i]).bits,
            ) && placement.on(from)[i] != vm ==> idle[placement.on(from)[i].bits]@
                < idle[vm.bits]@,
    ensures
        is_best_move(placement, pressure, idle, high_watermark, compat, vm, from, to),
{
}

/// A pressure that is no number, or less than zero, counts as none; one above one counts as one; and
/// taming never turns the order of two numbers round.
pub proof fn law_taming_clamps(a: u64, b: u64)
    ensures
        binary64::is_nan(a) ==> tamed(a) == 0,
        binary64::less(a, 0) ==> tamed(a) == 0,
        binary64::is_finite(a) && binary64::less(binary64::ONE, a) ==> tamed(a) == binary64::ONE,
        binary64::at_most(0, a) && binary64::at_most(a, binary64::ONE) ==> tamed(a) == a,
        binary64::is_finite(a) && binary64::is_finite(b) && binary64::at_most(a, b)
            ==> binary64::at_most(tamed(a), tamed(b)),
{
}

} // verus!
