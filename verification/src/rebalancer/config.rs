//! The fleet as it is written down, and the requests that its daemons are sent.

use vstd::prelude::*;

use crate::ordered::OrderedMap;
use crate::proto::ids;
use crate::proto::ids::{HostId, VmId};
use crate::rebalancer::control::{Fleet, HostEndpoint};
use crate::rebalancer::placement;
use crate::rebalancer::placement::{Placement, Pressure};
use crate::time::Duration;

verus! {

/// How long the VMs of a fleet that is written down count as idle, in seconds.
pub const IDLE_SECS: u64 = 60;

/// A host as it is written down.
#[derive(Debug)]
pub struct HostConfig {
    /// The host's name.
    pub id: String,
    /// The base URL of its daemon.
    pub control_url: String,
    /// What it binds to receive a migration.
    pub data_listen: String,
    /// What a source connects to in order to reach it.
    pub data_addr: String,
    /// Its memory pressure, as the bits of a number.
    pub pressure: u64,
    /// How many VMs it hosts.
    pub vms: usize,
}

/// A fleet with its load.
pub struct Scene {
    /// How its hosts are reached.
    pub fleet: Fleet,
    /// Which VMs are where.
    pub placement: Placement,
    /// The hosts' memory pressure.
    pub pressure: OrderedMap<HostId, Pressure>,
    /// How long the VMs have been idle.
    pub idle: OrderedMap<VmId, Duration>,
}

/// The endpoints of hosts. The last of several with one name stands.
pub open spec fn endpoints(hosts: Seq<HostConfig>) -> Map<Seq<char>, HostEndpoint>
    decreases hosts.len(),
{
    if hosts.len() == 0 {
        Map::empty()
    } else {
        endpoints(hosts.drop_last()).insert(
            hosts.last().id@,
            HostEndpoint {
                control_url: hosts.last().control_url,
                data_listen: hosts.last().data_listen,
                data_addr: hosts.last().data_addr,
            },
        )
    }
}

/// The bits of the hosts' memory pressure. The last of several with one name stands.
pub open spec fn pressures(hosts: Seq<HostConfig>) -> Map<Seq<char>, u64>
    decreases hosts.len(),
{
    if hosts.len() == 0 {
        Map::empty()
    } else {
        pressures(hosts.drop_last()).insert(
            hosts.last().id@,
            placement::tamed(hosts.last().pressure),
        )
    }
}

/// How many VMs are on a host.
pub open spec fn hosted(hosts: Seq<HostConfig>, host: Seq<char>) -> nat
    decreases hosts.len(),
{
    if hosts.len() == 0 {
        0
    } else if hosts.last().id@ == host {
        hosted(hosts.drop_last(), host) + hosts.last().vms as nat
    } else {
        hosted(hosts.drop_last(), host)
    }
}

/// Whether a VM counts as idle for as long as those of a fleet that is written down.
pub open spec fn idles(idle: Map<u128, Duration>, vm: VmId) -> bool {
    idle.contains_key(vm.bits) && idle[vm.bits]@ == IDLE_SECS * 1_000_000_000
}

/// Whether one of `vms`, from position `from` on, has the id `k`.
pub open spec fn has_id(vms: Seq<VmId>, from: int, k: u128) -> bool {
    exists|i: int| from <= i < vms.len() && (#[trigger] vms[i]).bits == k
}

/// One more VM brings one more id.
proof fn lemma_one_more_id(vms: Seq<VmId>, vm: VmId, from: int, k: u128)
    requires
        0 <= from <= vms.len(),
    ensures
        has_id(vms.push(vm), from, k) <==> has_id(vms, from, k) || k == vm.bits,
{
    let more = vms.push(vm);
    if has_id(vms, from, k) {
        let i = choose|i: int| from <= i < vms.len() && (#[trigger] vms[i]).bits == k;
        assert(more[i].bits == k);
    }
    assert(more[vms.len() as int].bits == vm.bits);
    if has_id(more, from, k) {
        let i = choose|i: int| from <= i < more.len() && (#[trigger] more[i]).bits == k;
        if i < vms.len() {
            assert(vms[i].bits == k);
        }
    }
}

impl Scene {
    /// A fleet without hosts.
    pub fn new() -> (scene: Scene)
        ensures
            scene.fleet.table() == Map::<Seq<char>, HostEndpoint>::empty(),
            scene.placement.table() == Map::<Seq<char>, Vec<VmId>>::empty(),
            scene.pressure@ == Map::<Seq<char>, Pressure>::empty(),
            scene.idle@ == Map::<u128, Duration>::empty(),
    {
        Scene {
            fleet: Fleet::new(),
            placement: Placement::new(),
            pressure: OrderedMap::new(),
            idle: OrderedMap::new(),
        }
    }

    /// Adds a VM that lives on `host`.
    pub fn add_vm(&mut self, host: &HostId, vm: VmId)
        ensures
            final(self).fleet == old(self).fleet,
            final(self).pressure == old(self).pressure,
            forall|h: Seq<char>| #[trigger]
                final(self).placement.on(h) == if h == host@ {
                    old(self).placement.on(h).push(vm)
                } else {
                    old(self).placement.on(h)
                },
            final(self).idle@.remove(vm.bits) == old(self).idle@.remove(vm.bits),
            idles(final(self).idle@, vm),
    {
        self.placement.assign(host.clone(), vm);
        self.idle.insert(vm, Duration::from_secs(IDLE_SECS));
        proof {
            assert(self.idle@.remove(vm.bits) =~= old(self).idle@.remove(vm.bits));
        }
    }

    /// Adds a host, with VMs of new ids.
    pub fn add_host(&mut self, host: HostConfig)
        ensures
            final(self).fleet.table() == old(self).fleet.table().insert(
                host.id@,
                (HostEndpoint {
                    control_url: host.control_url,
                    data_listen: host.data_listen,
                    data_addr: host.data_addr,
                }),
            ),
            final(self).pressure@.dom() == old(self).pressure@.dom().insert(host.id@),
            final(self).pressure@[host.id@]@ == placement::tamed(host.pressure),
            forall|h: Seq<char>|
                h != host.id@ ==> #[trigger] final(self).pressure@[h] == old(self).pressure@[h],
            forall|h: Seq<char>|
                h != host.id@ ==> #[trigger] final(self).placement.on(h) == old(self).placement.on(
                    h,
                ),
            final(self).placement.on(host.id@).len() == old(self).placement.on(host.id@).len()
                + host.vms,
            final(self).placement.on(host.id@).take(
                old(self).placement.on(host.id@).len() as int,
            ) == old(self).placement.on(host.id@),
            forall|i: int|
                old(self).placement.on(host.id@).len() <= i < final(self).placement.on(
                    host.id@,
                ).len() ==> ids::is_random_uuid(
                    (#[trigger] final(self).placement.on(host.id@)[i]).bits,
                ),
            forall|k: u128| #[trigger]
                final(self).idle@.contains_key(k) <==> old(self).idle@.contains_key(k) || has_id(
                    final(self).placement.on(host.id@),
                    old(self).placement.on(host.id@).len() as int,
                    k,
                ),
            forall|k: u128|
                #![trigger final(self).idle@[k]]
                final(self).idle@.contains_key(k) ==> if has_id(
                    final(self).placement.on(host.id@),
                    old(self).placement.on(host.id@).len() as int,
                    k,
                ) {
                    final(self).idle@[k]@ == IDLE_SECS * 1_000_000_000
                } else {
                    final(self).idle@[k] == old(self).idle@[k]
                },
            old(self).all_idle() ==> final(self).all_idle(),
            old(self).all_random() ==> final(self).all_random(),
            old(self).only_placed_idle() ==> final(self).only_placed_idle(),
    {
        let id = HostId::new(&host.id);
        let endpoint = HostEndpoint {
            control_url: host.control_url,
            data_listen: host.data_listen,
            data_addr: host.data_addr,
        };
        self.fleet.add(id.clone(), endpoint);
        self.pressure.insert(id.clone(), Pressure::new(host.pressure));
        let mut i: usize = 0;
        while i < host.vms
            invariant
                i <= host.vms,
                id@ == host.id@,
                self.fleet.table() == old(self).fleet.table().insert(host.id@, endpoint),
                self.pressure@.dom() == old(self).pressure@.dom().insert(host.id@),
                self.pressure@[host.id@]@ == placement::tamed(host.pressure),
                forall|h: Seq<char>|
                    h != host.id@ ==> #[trigger] self.pressure@[h] == old(self).pressure@[h],
                forall|h: Seq<char>|
                    h != host.id@ ==> #[trigger] self.placement.on(h) == old(self).placement.on(h),
                self.placement.on(host.id@).len() == old(self).placement.on(host.id@).len() + i,
                self.placement.on(host.id@).take(old(self).placement.on(host.id@).len() as int)
                    == old(self).placement.on(host.id@),
                forall|j: int|
                    old(self).placement.on(host.id@).len() <= j < self.placement.on(host.id@).len()
                        ==> ids::is_random_uuid((#[trigger] self.placement.on(host.id@)[j]).bits),
                forall|k: u128| #[trigger]
                    self.idle@.contains_key(k) <==> old(self).idle@.contains_key(k) || has_id(
                        self.placement.on(host.id@),
                        old(self).placement.on(host.id@).len() as int,
                        k,
                    ),
                forall|k: u128|
                    #![trigger self.idle@[k]]
                    self.idle@.contains_key(k) ==> if has_id(
                        self.placement.on(host.id@),
                        old(self).placement.on(host.id@).len() as int,
                        k,
                    ) {
                        self.idle@[k]@ == IDLE_SECS * 1_000_000_000
                    } else {
                        self.idle@[k] == old(self).idle@[k]
                    },
                old(self).all_idle() ==> self.all_idle(),
            decreases host.vms - i,
        {
            let ghost before = *self;
            let vm = VmId::new();
            self.add_vm(&id, vm);
            proof {
                let kept = old(self).placement.on(host.id@).len() as int;
                assert(self.placement.on(host.id@).take(kept) =~= before.placement.on(
                    host.id@,
                ).take(kept));
                if old(self).all_idle() {
                    before.lemma_still_idle(*self, host.id@, vm);
                }
                let (vms, vms_now) = (before.placement.on(host.id@), self.placement.on(host.id@));
                assert forall|k: u128| has_id(vms_now, kept, k) <==> has_id(vms, kept, k) || k
                    == vm.bits by {
                    lemma_one_more_id(vms, vm, kept, k);
                }
                assert forall|k: u128| k != vm.bits implies {
                    &&& #[trigger] self.idle@.contains_key(k) == before.idle@.contains_key(k)
                    &&& before.idle@.contains_key(k) ==> self.idle@[k] == before.idle@[k]
                } by {
                    assert(self.idle@.remove(vm.bits).contains_key(k)
                        == before.idle@.remove(vm.bits).contains_key(k));
                    if before.idle@.contains_key(k) {
                        assert(self.idle@.remove(vm.bits)[k] == self.idle@[k]);
                        assert(before.idle@.remove(vm.bits)[k] == before.idle@[k]);
                    }
                }
            }
            i = i + 1;
        }
        proof {
            if old(self).only_placed_idle() {
                let old_vms = old(self).placement.on(host.id@);
                let vms = self.placement.on(host.id@);
                assert forall|k: u128| #[trigger] self.idle@.contains_key(k) implies self.places(
                    k,
                ) by {
                    if has_id(vms, old_vms.len() as int, k) {
                        let i = choose|i: int|
                            old_vms.len() <= i < vms.len() && (#[trigger] vms[i]).bits == k;
                        assert(vms[i].bits == k);
                        assert(has_id(vms, 0, k));
                    } else {
                        assert(old(self).idle@.contains_key(k));
                        assert(old(self).places(k));
                        let h = choose|h: Seq<char>| has_id(#[trigger] old(self).placement.on(h), 0, k);
                        let from = old(self).placement.on(h);
                        let i = choose|i: int|
                            0 <= i < from.len() && (#[trigger] from[i]).bits == k;
                        if h == host.id@ {
                            assert(vms.take(old_vms.len() as int)[i] == old_vms[i]);
                        }
                        assert(self.placement.on(h)[i].bits == k);
                        assert(has_id(self.placement.on(h), 0, k));
                    }
                }
            }
            if old(self).all_random() {
                let old_vms = old(self).placement.on(host.id@);
                assert forall|h: Seq<char>, i: int| 0 <= i < self.placement.on(h).len() implies
                    ids::is_random_uuid((#[trigger] self.placement.on(h)[i]).bits) by {
                    if h != host.id@ {
                        assert(self.placement.on(h)[i] == old(self).placement.on(h)[i]);
                    } else if i < old_vms.len() {
                        assert(self.placement.on(h).take(old_vms.len() as int)[i] == old_vms[i]);
                        assert(old_vms[i] == old(self).placement.on(h)[i]);
                    }
                }
            }
        }
    }

    /// Whether every VM that is placed has an id that was drawn at random.
    pub open spec fn all_random(&self) -> bool {
        forall|h: Seq<char>, i: int|
            0 <= i < self.placement.on(h).len() ==> ids::is_random_uuid(
                (#[trigger] self.placement.on(h)[i]).bits,
            )
    }

    /// Whether a VM of the id `k` is placed.
    pub open spec fn places(&self, k: u128) -> bool {
        exists|h: Seq<char>| has_id(#[trigger] self.placement.on(h), 0, k)
    }

    /// Whether the idleness of placed VMs, and of no others, is known.
    pub open spec fn only_placed_idle(&self) -> bool {
        forall|k: u128| #[trigger] self.idle@.contains_key(k) ==> self.places(k)
    }

    /// Whether every VM that is placed counts as idle.
    pub open spec fn all_idle(&self) -> bool {
        forall|h: Seq<char>, i: int|
            0 <= i < self.placement.on(h).len() ==> idles(
                self.idle@,
                #[trigger] self.placement.on(h)[i],
            )
    }

    /// One more idle VM leaves all idle.
    proof fn lemma_still_idle(self, after: Scene, host: Seq<char>, vm: VmId)
        requires
            self.all_idle(),
            forall|h: Seq<char>| #[trigger]
                after.placement.on(h) == if h == host {
                    self.placement.on(h).push(vm)
                } else {
                    self.placement.on(h)
                },
            after.idle@.remove(vm.bits) == self.idle@.remove(vm.bits),
            idles(after.idle@, vm),
        ensures
            after.all_idle(),
    {
        assert forall|h: Seq<char>, i: int| 0 <= i < after.placement.on(h).len() implies idles(
            after.idle@,
            #[trigger] after.placement.on(h)[i],
        ) by {
            let v = after.placement.on(h)[i];
            if i < self.placement.on(h).len() {
                assert(v == self.placement.on(h)[i]);
                assert(idles(self.idle@, self.placement.on(h)[i]));
                if v.bits != vm.bits {
                    assert(self.idle@.remove(vm.bits).contains_key(v.bits));
                    assert(after.idle@.remove(vm.bits)[v.bits] == after.idle@[v.bits]);
                    assert(self.idle@.remove(vm.bits)[v.bits] == self.idle@[v.bits]);
                }
            }
        }
    }
}

/// The fleet that hosts make up, with VMs of new ids.
pub fn assemble(hosts: Vec<HostConfig>) -> (scene: Scene)
    ensures
        scene.fleet.table() == endpoints(hosts@),
        scene.pressure@.dom() == pressures(hosts@).dom(),
        forall|h: Seq<char>|
            pressures(hosts@).contains_key(h) ==> (#[trigger] scene.pressure@[h])@
                == pressures(hosts@)[h],
        forall|h: Seq<char>| (#[trigger] scene.placement.on(h)).len() == hosted(hosts@, h),
        scene.all_idle(),
        scene.only_placed_idle(),
        scene.all_random(),
{
    let ghost all = hosts@;
    let mut scene = Scene::new();
    let mut rest = hosts;
    let ghost mut n: int = 0;
    proof {
        assert(all.take(0) =~= Seq::<HostConfig>::empty());
    }
    while rest.len() > 0
        invariant
            0 <= n <= all.len(),
            rest@ == all.skip(n),
            scene.fleet.table() == endpoints(all.take(n)),
            scene.pressure@.dom() == pressures(all.take(n)).dom(),
            forall|h: Seq<char>|
                pressures(all.take(n)).contains_key(h) ==> (#[trigger] scene.pressure@[h])@
                    == pressures(all.take(n))[h],
            forall|h: Seq<char>|
                (#[trigger] scene.placement.on(h)).len() == hosted(all.take(n), h),
            scene.all_idle(),
            scene.only_placed_idle(),
            scene.all_random(),
        decreases rest@.len(),
    {
        let host = rest.remove(0);
        proof {
            assert(rest@ =~= all.skip(n + 1));
            assert(all.take(n + 1).drop_last() =~= all.take(n));
            assert(all.take(n + 1).last() == host);
        }
        scene.add_host(host);
        proof {
            n = n + 1;
        }
    }
    proof {
        assert(all.take(n) =~= all);
    }
    scene
}

/// The URL that asks a daemon to receive a migration.
pub fn recv_url(control_url: &str, listen: &str) -> (url: String)
    ensures
        url@ == control_url@ + "/migrate/recv?listen="@ + listen@,
{
    let mut url = control_url.to_owned();
    url.append("/migrate/recv?listen=");
    url.append(listen);
    url
}

/// The URL that asks a daemon to send a VM away.
pub fn send_url(control_url: &str, to: &str) -> (url: String)
    ensures
        url@ == control_url@ + "/migrate/send?to="@ + to@,
{
    let mut url = control_url.to_owned();
    url.append("/migrate/send?to=");
    url.append(to);
    url
}

/// Whether a daemon has done what it was asked, by its HTTP status.
pub fn accepted(status: u16) -> (yes: bool)
    ensures
        yes == (200 <= status < 300),
{
    status >= 200 && status < 300
}

/// Every host is as its own entry says: reached at its own URL, listening where it listens, reached by
/// others at its own address, under its own pressure and with its own VMs. Of two entries of one name
/// the later counts.
pub proof fn law_hosts_are_as_written(hosts: Seq<HostConfig>, i: int)
    requires
        0 <= i < hosts.len(),
        forall|j: int| i < j < hosts.len() ==> (#[trigger] hosts[j]).id@ != hosts[i].id@,
    ensures
        endpoints(hosts).contains_key(hosts[i].id@),
        endpoints(hosts)[hosts[i].id@].control_url == hosts[i].control_url,
        endpoints(hosts)[hosts[i].id@].data_listen == hosts[i].data_listen,
        endpoints(hosts)[hosts[i].id@].data_addr == hosts[i].data_addr,
        pressures(hosts).contains_key(hosts[i].id@),
        pressures(hosts)[hosts[i].id@] == placement::tamed(hosts[i].pressure),
        hosted(hosts, hosts[i].id@) >= hosts[i].vms,
    decreases hosts.len(),
{
    if i < hosts.len() - 1 {
        let init = hosts.drop_last();
        assert(init[i] == hosts[i]);
        assert(hosts[hosts.len() - 1].id@ != hosts[i].id@);
        assert forall|j: int| i < j < init.len() implies (#[trigger] init[j]).id@ != init[i].id@ by {
            assert(init[j] == hosts[j]);
        }
        law_hosts_are_as_written(init, i);
    }
}

/// No host is there that was not written down.
pub proof fn law_only_written_hosts(hosts: Seq<HostConfig>, host: Seq<char>)
    requires
        forall|j: int| 0 <= j < hosts.len() ==> (#[trigger] hosts[j]).id@ != host,
    ensures
        !endpoints(hosts).contains_key(host),
        !pressures(hosts).contains_key(host),
        hosted(hosts, host) == 0,
    decreases hosts.len(),
{
    if hosts.len() > 0 {
        let init = hosts.drop_last();
        assert(hosts[hosts.len() - 1].id@ != host);
        assert forall|j: int| 0 <= j < init.len() implies (#[trigger] init[j]).id@ != host by {
            assert(init[j] == hosts[j]);
        }
        law_only_written_hosts(init, host);
    }
}

/// A fleet hosts as many VMs as its entries say together.
pub proof fn law_entries_add_up(a: Seq<HostConfig>, b: Seq<HostConfig>, host: Seq<char>)
    ensures
        hosted(a + b, host) == hosted(a, host) + hosted(b, host),
    decreases b.len(),
{
    if b.len() == 0 {
        assert(a + b =~= a);
    } else {
        law_entries_add_up(a, b.drop_last(), host);
        assert((a + b).drop_last() =~= a + b.drop_last());
        assert((a + b).last() == b.last());
    }
}

/// A VM that a fleet is written down with counts as idle for a minute.
pub proof fn law_written_vms_are_idle_for_a_minute(idle: Map<u128, Duration>, vm: VmId)
    requires
        idles(idle, vm),
    ensures
        idle.contains_key(vm.bits),
        idle[vm.bits]@ == 60_000_000_000,
{
}

} // verus!
