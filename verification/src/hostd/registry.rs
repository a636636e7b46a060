//! The VMs that run on one host.

use vstd::prelude::*;

use crate::hostd::firecracker::ApiOp;
use crate::hostd::net;
use crate::hostd::net::{create, NetId};
use crate::hostd::steps;
use crate::hostd::steps::{
    io_error, next_boot_phase, run_path, Action, Artifacts, BootPhase, BootPlan, Closing, Event,
    MigrateError, Step,
};
use crate::ordered;
use crate::ordered::OrderedMap;
use crate::paths;
use crate::paths::join;
use crate::proto::ids;
use crate::proto::ids::{HostId, VmId};
use crate::text;

verus! {

/// A VM that runs on this host.
#[derive(Debug, PartialEq, Eq)]
pub struct RunningVm {
    /// The VM.
    pub id: VmId,
    /// The API socket of its Firecracker process.
    pub api_sock: String,
    /// The directory of its sockets and logs.
    pub work: String,
    /// Its vsock socket on the host. Empty for a restored VM whose snapshot did not bring one.
    pub vsock_uds: String,
    /// Its memory, in MiB.
    pub mib: u32,
    /// Whether a page server serves its memory, as for every restored VM.
    pub served: bool,
    /// Its network identity, if it has one.
    pub net: Option<NetId>,
}

impl RunningVm {
    /// What tears the VM down, in order: it is killed first, so that it faults no more, then its
    /// page server is stopped, then its tap is taken down, then its files go.
    pub open spec fn torn_down(&self) -> Seq<steps::Act> {
        seq![steps::Act::Kill] + (if self.served {
            seq![steps::Act::StopPages]
        } else {
            seq![]
        }) + (match self.net {
            Some(net) => seq![steps::Act::DestroyTap(net.tap@)],
            None => seq![],
        }) + seq![steps::Act::RemoveDir(self.work@), steps::Act::RemoveFile(self.vsock_uds@)]
    }

    /// What tears the VM down, after `first`.
    pub fn teardown(self, first: Vec<Closing>) -> (closings: Vec<Closing>)
        ensures
            steps::acts(closings@) == steps::acts(first@) + self.torn_down(),
    {
        let ghost vm = self;
        let ghost base = steps::acts(first@);
        let mut closings = first;
        closings.push(Closing::Kill);
        if self.served {
            closings.push(Closing::StopPages);
        }
        if let Some(net) = self.net {
            closings.push(Closing::DestroyTap(net.tap));
        }
        closings.push(Closing::RemoveDir(self.work));
        closings.push(Closing::RemoveFile(self.vsock_uds));
        proof {
            assert(steps::acts(closings@) =~= base + vm.torn_down());
        }
        closings
    }
}

/// A VM is killed before anything that it uses goes: first the VM, then its page server, then the
/// rest. What it leaves on the host is removed: its tap, its directory and its socket.
pub proof fn law_teardown_kills_first(vm: RunningVm, i: int)
    requires
        0 <= i < vm.torn_down().len(),
    ensures
        vm.torn_down()[i] is Kill <==> i == 0,
        vm.torn_down()[i] is StopPages <==> vm.served && i == 1,
        vm.torn_down().contains(steps::Act::RemoveDir(vm.work@)),
        vm.torn_down().contains(steps::Act::RemoveFile(vm.vsock_uds@)),
        vm.net matches Some(net) ==> vm.torn_down().contains(steps::Act::DestroyTap(net.tap@)),
{
    let acts = vm.torn_down();
    let n = acts.len() as int;
    assert(acts[n - 2] == steps::Act::RemoveDir(vm.work@));
    assert(acts[n - 1] == steps::Act::RemoveFile(vm.vsock_uds@));
    if vm.net is Some {
        assert(acts[n - 3] == steps::Act::DestroyTap(vm.net->0.tap@));
    }
}

/// What a host reports to the rebalancer.
#[derive(Clone, Debug)]
pub struct HostStatus {
    /// The host.
    pub host: String,
    /// The VMs that run on it.
    pub vms: Vec<String>,
    /// Its memory pressure, as the bits of a number between 0 and 1.
    pub pressure: u64,
}

/// The VMs that run on one host.
pub struct VmRegistry {
    vms: OrderedMap<VmId, RunningVm>,
    host: HostId,
}

impl VmRegistry {
    /// The VMs by their ids.
    pub closed spec fn running(&self) -> Map<u128, RunningVm> {
        self.vms@
    }

    /// The VMs in the order of their ids.
    pub closed spec fn listed(&self) -> Seq<(VmId, RunningVm)> {
        self.vms.pairs()
    }

    /// The host's name.
    pub closed spec fn name(&self) -> Seq<char> {
        self.host@
    }

    /// No VM runs on `host`.
    pub fn new(host: HostId) -> (registry: VmRegistry)
        ensures
            registry.running() == Map::<u128, RunningVm>::empty(),
            registry.name() == host@,
    {
        VmRegistry { vms: OrderedMap::new(), host }
    }

    /// Registers a VM. One of the same id is replaced.
    pub fn insert(&mut self, vm: RunningVm)
        ensures
            final(self).running() == old(self).running().insert(vm.id.bits, vm),
            final(self).name() == old(self).name(),
    {
        self.vms.insert(vm.id, vm);
    }

    /// Takes a VM out of the register and hands it back, running.
    pub fn take(&mut self, id: &VmId) -> (vm: Option<RunningVm>)
        ensures
            final(self).running() == old(self).running().remove(id.bits),
            final(self).name() == old(self).name(),
            vm == if old(self).running().contains_key(id.bits) {
                Some(old(self).running()[id.bits])
            } else {
                None
            },
    {
        self.vms.remove(id)
    }

    /// Takes a VM out of the register, with what tears it down.
    pub fn remove(&mut self, id: &VmId) -> (closings: Option<Vec<Closing>>)
        ensures
            final(self).running() == old(self).running().remove(id.bits),
            final(self).name() == old(self).name(),
            match closings {
                Some(c) => old(self).running().contains_key(id.bits) && steps::acts(c@)
                    == old(self).running()[id.bits].torn_down(),
                None => !old(self).running().contains_key(id.bits),
            },
    {
        match self.take(id) {
            Some(vm) => {
                let ghost acts = vm.torn_down();
                let closings = vm.teardown(Vec::new());
                proof {
                    assert(steps::acts(closings@) =~= acts);
                }
                Some(closings)
            },
            None => None,
        }
    }

    /// What the host reports: its name, the ids of its VMs in order, and its memory pressure.
    pub fn status(&self, pressure: u64) -> (status: HostStatus)
        ensures
            ordered::ascending(self.listed()),
            ordered::map_of(self.listed()) == self.running(),
            status.host@ == self.name(),
            status.pressure == pressure,
            status.vms@.len() == self.listed().len(),
            forall|i: int|
                0 <= i < status.vms@.len() ==> (#[trigger] status.vms@[i])@ == ids::hyphenated(
                    self.listed()[i].0.bits,
                ),
    {
        let entries = self.vms.entries();
        let mut vms: Vec<String> = Vec::new();
        let mut i: usize = 0;
        while i < entries.len()
            invariant
                i <= entries@.len(),
                entries@ == self.listed(),
                vms@.len() == i,
                forall|j: int|
                    0 <= j < i ==> (#[trigger] vms@[j])@ == ids::hyphenated(
                        self.listed()[j].0.bits,
                    ),
            decreases entries@.len() - i,
        {
            vms.push(entries[i].0.to_text());
            i = i + 1;
        }
        HostStatus { host: self.host.as_str().to_owned(), vms, pressure }
    }

    /// Boots a VM of `mib` MiB from `art`. A networked VM gets the identity of index `net`. The
    /// process `pid` numbers its VMs by `seq`, and their files lie under `temp`.
    pub fn spawn(
        art: Artifacts,
        mib: u32,
        net: Option<u32>,
        temp: &str,
        pid: u32,
        seq: u64,
    ) -> (step: Step<SpawnRun, RunningVm>)
        ensures
            step matches Step::Perform(run, action) && {
                &&& ids::is_random_uuid(run.id.bits)
                &&& run.plan.art == art
                &&& run.plan.mib == mib
                &&& run.plan.net is None
                &&& run.plan.work@ == paths::under(
                    temp@,
                    steps::run_name("sleepwalk-vm-"@, pid, seq, ""@),
                )
                &&& run.plan.vsock_uds@ == paths::under(
                    temp@,
                    steps::run_name("sleepwalk-vm-vsock-"@, pid, seq, ".sock"@),
                )
                &&& run.index == net
                &&& run.phase is CreateDir
                &&& run.is_action(action)
            },
    {
        let plan = BootPlan {
            art,
            work: run_path(temp, "sleepwalk-vm-", pid, seq, ""),
            vsock_uds: run_path(temp, "sleepwalk-vm-vsock-", pid, seq, ".sock"),
            mib,
            net: None,
        };
        let run = SpawnRun { id: VmId::new(), plan, index: net, phase: SpawnPhase::CreateDir };
        let action = run.action();
        Step::Perform(run, action)
    }
}

/// How far the boot of a VM has come.
#[derive(Clone, Copy, Debug, PartialEq, Eq, Structural)]
pub enum SpawnPhase {
    /// Its directory is being created.
    CreateDir,
    /// Its tap is being created.
    CreateTap,
    /// Its Firecracker process is being started.
    Launch,
    /// It is being configured and started.
    Configure(BootPhase),
}

/// The boot of a VM.
#[derive(Debug, PartialEq, Eq)]
pub struct SpawnRun {
    /// The VM.
    pub id: VmId,
    /// What is booted. It has its network identity once that is known.
    pub plan: BootPlan,
    /// The index of its network identity, if it is to have one.
    pub index: Option<u32>,
    /// How far the boot has come.
    pub phase: SpawnPhase,
}

impl SpawnRun {
    /// Whether the run is in order: the network is configured only for a VM that has one.
    pub open spec fn wf(&self) -> bool {
        match self.phase {
            SpawnPhase::CreateDir => self.plan.net is None,
            SpawnPhase::CreateTap => self.plan.net is Some,
            SpawnPhase::Launch => true,
            SpawnPhase::Configure(p) => p is Network ==> self.plan.net is Some,
        }
    }

    /// Whether `action` is the one of the run's phase.
    pub open spec fn is_action(&self, action: Action) -> bool {
        match self.phase {
            SpawnPhase::CreateDir => action matches Action::CreateDir(dir) && dir@
                == self.plan.work@,
            SpawnPhase::CreateTap => action matches Action::CreateTap(tap) && (
            self.plan.net matches Some(net) && tap@ == net.tap@),
            SpawnPhase::Launch => self.plan.is_launch(action),
            SpawnPhase::Configure(p) => action matches Action::Control(op) && self.plan.is_op(p, op),
        }
    }

    /// Where the boot goes from `event`.
    pub open spec fn turning(&self, event: Event) -> steps::Turning<SpawnPhase> {
        match (self.phase, event) {
            (SpawnPhase::CreateDir, Event::Done) => match self.index {
                None => steps::Turning::Go(SpawnPhase::Launch),
                Some(idx) => if net::assignable(idx) {
                    steps::Turning::Go(SpawnPhase::CreateTap)
                } else {
                    steps::Turning::End
                },
            },
            (SpawnPhase::CreateTap, Event::Done) => steps::Turning::Go(SpawnPhase::Launch),
            (SpawnPhase::Launch, Event::Done) => steps::Turning::Go(
                SpawnPhase::Configure(BootPhase::Machine),
            ),
            (SpawnPhase::Configure(p), Event::Done) => match steps::following(
                p,
                self.plan.net is Some,
            ) {
                Some(q) => steps::Turning::Go(SpawnPhase::Configure(q)),
                None => steps::Turning::End,
            },
            (SpawnPhase::Configure(_), Event::Refused(_)) => steps::Turning::End,
            (SpawnPhase::Configure(_), _) => steps::Turning::Stay,
            (_, Event::Failed(_)) => steps::Turning::End,
            _ => steps::Turning::Stay,
        }
    }

    /// The network identity of the VM after `event`: it is known once the directory is there.
    pub open spec fn identity(&self, event: Event, net: Option<NetId>) -> bool {
        match (self.phase, event, self.index) {
            (SpawnPhase::CreateDir, Event::Done, Some(idx)) => net matches Some(n) && n.tap@
                == net::tap_of(idx) && n.mac@ == net::mac_of(idx) && n.ip@ == net::ip_of(idx),
            _ => net == self.plan.net,
        }
    }

    /// How the boot ends with `event`: the VM runs, or it does not and its process is killed.
    pub open spec fn ends(
        &self,
        event: Event,
        closings: Seq<Closing>,
        result: Result<RunningVm, MigrateError>,
    ) -> bool {
        match (self.phase, event) {
            (SpawnPhase::CreateDir, Event::Failed(why)) => closings.len() == 0 && (
            result matches Err(e) && steps::is_io_error(e, "create vm work dir"@, why@)),
            (SpawnPhase::CreateDir, _) => closings.len() == 0 && (result matches Err(e)
                && steps::is_io_error(
                e,
                "plumb vm network"@,
                net::NetError::OutOfRange(self.index->0).words(),
            )),
            (SpawnPhase::CreateTap, Event::Failed(why)) => closings.len() == 0 && (
            result matches Err(e) && steps::is_io_error(e, "plumb vm network"@, why@)),
            (SpawnPhase::Launch, Event::Failed(why)) => closings.len() == 0 && (
            result matches Err(e) && steps::is_io_error(e, "spawn firecracker"@, why@)),
            (SpawnPhase::Configure(_), Event::Refused(e)) => steps::acts(closings) == seq![
                steps::Act::Kill,
            ] && result == Err::<RunningVm, MigrateError>(MigrateError::Firecracker(e)),
            _ => closings.len() == 0 && (result matches Ok(vm) && {
                &&& vm.id == self.id
                &&& vm.api_sock@ == paths::under(self.plan.work@, "fc.sock"@)
                &&& vm.work == self.plan.work
                &&& vm.vsock_uds == self.plan.vsock_uds
                &&& vm.mib == self.plan.mib
                &&& !vm.served
                &&& vm.net == self.plan.net
            }),
        }
    }

    /// Whether `step` is what follows `event`.
    pub open spec fn leads_to(&self, event: Event, step: Step<SpawnRun, RunningVm>) -> bool {
        match self.turning(event) {
            steps::Turning::Stay => step matches Step::Perform(run, action) && run == *self
                && run.is_action(action),
            steps::Turning::Go(phase) => step matches Step::Perform(run, action) && {
                &&& run.id == self.id
                &&& run.index == self.index
                &&& run.plan == (BootPlan { net: run.plan.net, ..self.plan })
                &&& self.identity(event, run.plan.net)
                &&& run.phase == phase
                &&& run.wf()
                &&& run.is_action(action)
            },
            steps::Turning::End => step matches Step::Finish(closings, result) && self.ends(
                event,
                closings@,
                result,
            ),
        }
    }

    /// The action of the run's phase.
    fn action(&self) -> (action: Action)
        requires
            self.wf(),
        ensures
            self.is_action(action),
    {
        match self.phase {
            SpawnPhase::CreateDir => Action::CreateDir(self.plan.work.as_str().to_owned()),
            SpawnPhase::CreateTap => match &self.plan.net {
                Some(net) => Action::CreateTap(net.tap.as_str().to_owned()),
                None => Action::CreateTap("".to_owned()),
            },
            SpawnPhase::Launch => self.plan.launch(),
            SpawnPhase::Configure(p) => Action::Control(self.plan.op(p)),
        }
    }

    /// The run in `phase`, with its action.
    fn go(self, phase: SpawnPhase) -> (step: Step<SpawnRun, RunningVm>)
        requires
            (SpawnRun { phase, ..self }).wf(),
        ensures
            step matches Step::Perform(run, action) && run == (SpawnRun { phase, ..self })
                && run.is_action(action),
    {
        let run = SpawnRun { phase, ..self };
        let action = run.action();
        Step::Perform(run, action)
    }

    /// The VM, which runs now.
    fn up(self) -> (step: Step<SpawnRun, RunningVm>)
        requires
            self.phase is Configure,
        ensures
            step matches Step::Finish(closings, result) && self.ends(
                Event::Done,
                closings@,
                result,
            ),
    {
        let vm = RunningVm {
            id: self.id,
            api_sock: join(&self.plan.work, "fc.sock"),
            work: self.plan.work,
            vsock_uds: self.plan.vsock_uds,
            mib: self.plan.mib,
            served: false,
            net: self.plan.net,
        };
        Step::Finish(Vec::new(), Ok(vm))
    }

    /// What follows `event`, which came of the last action.
    pub fn step(self, event: Event) -> (step: Step<SpawnRun, RunningVm>)
        requires
            self.wf(),
        ensures
            self.leads_to(event, step),
    {
        let phase = self.phase;
        match (phase, event) {
            (SpawnPhase::CreateDir, Event::Done) => match self.index {
                None => self.go(SpawnPhase::Launch),
                Some(idx) => match create(idx) {
                    Ok(net) => {
                        let plan = BootPlan { net: Some(net), ..self.plan };
                        let run = SpawnRun { plan, ..self };
                        run.go(SpawnPhase::CreateTap)
                    },
                    Err(e) => Step::Finish(
                        Vec::new(),
                        Err(io_error("plumb vm network", e.to_text())),
                    ),
                },
            },
            (SpawnPhase::CreateTap, Event::Done) => self.go(SpawnPhase::Launch),
            (SpawnPhase::Launch, Event::Done) => self.go(SpawnPhase::Configure(BootPhase::Machine)),
            (SpawnPhase::Configure(p), Event::Done) => {
                let networked: bool = self.plan.net.is_some();
                match next_boot_phase(p, networked) {
                    Some(q) => self.go(SpawnPhase::Configure(q)),
                    None => self.up(),
                }
            },
            (SpawnPhase::Configure(_), Event::Refused(e)) => {
                let mut closings: Vec<Closing> = Vec::new();
                closings.push(Closing::Kill);
                proof {
                    assert(steps::acts(closings@) =~= seq![steps::Act::Kill]);
                }
                Step::Finish(closings, Err(MigrateError::Firecracker(e)))
            },
            (SpawnPhase::CreateDir, Event::Failed(why)) => Step::Finish(
                Vec::new(),
                Err(io_error("create vm work dir", why)),
            ),
            (SpawnPhase::CreateTap, Event::Failed(why)) => Step::Finish(
                Vec::new(),
                Err(io_error("plumb vm network", why)),
            ),
            (SpawnPhase::Launch, Event::Failed(why)) => Step::Finish(
                Vec::new(),
                Err(io_error("spawn firecracker", why)),
            ),
            _ => self.go(phase),
        }
    }
}

// ---------------------------------------------------------------------------
// What a boot gives
// ---------------------------------------------------------------------------

/// The VM that a boot gives is the one that was booted: it is controlled over the socket that its
/// process was started with, reached over the vsock socket that its device was given, has the memory
/// that was set, and has the network identity that its tap and its interface were made for.
pub proof fn law_spawned_vm_is_the_one_booted(
    creating: SpawnRun,
    launching: SpawnRun,
    sizing: SpawnRun,
    attaching: SpawnRun,
    starting: SpawnRun,
    created: Action,
    launched: Action,
    sized: Action,
    attached: Action,
    closings: Seq<Closing>,
    vm: RunningVm,
)
    requires
        creating.phase is CreateDir,
        launching.phase is Launch,
        sizing.phase == SpawnPhase::Configure(BootPhase::Machine),
        attaching.phase == SpawnPhase::Configure(BootPhase::Vsock),
        starting.phase == SpawnPhase::Configure(BootPhase::Start),
        creating.plan.work@ == starting.plan.work@,
        launching.plan == starting.plan,
        sizing.plan == starting.plan,
        attaching.plan == starting.plan,
        creating.is_action(created),
        launching.is_action(launched),
        sizing.is_action(sized),
        attaching.is_action(attached),
        starting.ends(Event::Done, closings, Ok(vm)),
    ensures
        vm.id == starting.id,
        vm.net == starting.plan.net,
        created matches Action::CreateDir(dir) && dir@ == vm.work@,
        launched matches Action::Launch { bin, api_sock, .. } && bin@ == starting.plan.art.fc_bin@
            && api_sock@ == vm.api_sock@,
        sized matches Action::Control(ApiOp::ConfigureMachine(cfg)) && cfg.mem_size_mib == vm.mib,
        attached matches Action::Control(ApiOp::ConfigureVsock(cfg)) && cfg.uds_path@
            == vm.vsock_uds@,
        !vm.served,
        closings.len() == 0,
{
}

/// A boot goes step by step: a networked VM gets its tap before its process starts, one without a
/// network gets none, and the VM is there only once its process was told to start it.
pub proof fn law_spawn_goes_step_by_step(
    run: SpawnRun,
    event: Event,
    closings: Seq<Closing>,
    result: Result<RunningVm, MigrateError>,
)
    ensures
        run.turning(event) == steps::Turning::Go(SpawnPhase::CreateTap) ==> run.phase is CreateDir
            && event is Done && run.index is Some,
        run.turning(event) == steps::Turning::Go(SpawnPhase::Launch) ==> event is Done && (
        run.phase is CreateTap || (run.phase is CreateDir && run.index is None)),
        run.turning(event) == steps::Turning::Go(SpawnPhase::Configure(BootPhase::Machine)) ==> (
        run.phase is Launch && event is Done),
        run.turning(event) is End && run.ends(event, closings, result) ==> {
            &&& result is Ok ==> event is Done && run.phase is Configure
            &&& result is Ok ==> run.phase == SpawnPhase::Configure(BootPhase::Start)
            &&& run.phase is Configure && result is Err ==> steps::acts(closings) == seq![
                steps::Act::Kill,
            ]
        },
{
}

/// A VM's identity is made once its directory is there, from its own index, and stays.
pub proof fn law_identity_is_of_the_index(run: SpawnRun, event: Event, net: Option<NetId>)
    requires
        run.identity(event, net),
    ensures
        run.phase is CreateDir && event is Done && run.index is Some ==> (net matches Some(n)
            && n.tap@ == net::tap_of(run.index->0) && n.mac@ == net::mac_of(run.index->0) && n.ip@
            == net::ip_of(run.index->0)),
        !(run.phase is CreateDir) ==> net == run.plan.net,
        run.index is None ==> net == run.plan.net,
{
}

/// What tears a VM down takes down what it has, and no more: its own tap, its own directory, its own
/// socket, each once and in this order.
pub proof fn law_teardown_is_of_the_vm(vm: RunningVm, i: int)
    requires
        0 <= i < vm.torn_down().len(),
    ensures
        match vm.torn_down()[i] {
            steps::Act::DestroyTap(tap) => vm.net matches Some(net) && net.tap@ == tap && i
                == vm.torn_down().len() - 3,
            steps::Act::RemoveDir(dir) => dir == vm.work@ && i == vm.torn_down().len() - 2,
            steps::Act::RemoveFile(file) => file == vm.vsock_uds@ && i == vm.torn_down().len() - 1,
            steps::Act::Kill => i == 0,
            steps::Act::StopPages => i == 1 && vm.served,
            _ => false,
        },
{
}

/// A boot that fails says why: what Firecracker refused, or for what reason a directory, the network
/// or the process failed; an index that has no address is told by its number.
pub proof fn law_spawn_says_why_it_failed(
    run: SpawnRun,
    event: Event,
    closings: Seq<Closing>,
    result: Result<RunningVm, MigrateError>,
)
    requires
        run.turning(event) is End,
        run.ends(event, closings, result),
    ensures
        match event {
            Event::Failed(why) => result matches Err(MigrateError::Io { source, .. }) && source@
                == why@,
            Event::Refused(why) => result matches Err(MigrateError::Firecracker(e)) && e == why,
            Event::Done => run.phase is CreateDir ==> (run.index matches Some(idx)
                && !net::assignable(idx) && (result matches Err(MigrateError::Io { source, .. })
                && text::has_part(source@, text::decimal(idx as nat)))),
            _ => false,
        },
{
    if event is Done && run.phase is CreateDir {
        let idx = run.index->0;
        text::law_parts_are_found(
            "vm network index "@,
            text::decimal(idx as nat),
            " out of range (max 252)"@,
        );
    }
}

/// The tap that is created is the one of the VM's identity, and the interface is bound to it.
pub proof fn law_tap_is_the_vms(
    creating: SpawnRun,
    binding: SpawnRun,
    created: Action,
    bound: Action,
)
    requires
        creating.phase is CreateTap,
        binding.phase == SpawnPhase::Configure(BootPhase::Network),
        binding.plan == creating.plan,
        creating.is_action(created),
        binding.is_action(bound),
    ensures
        ({
            &&& creating.plan.net matches Some(net)
            &&& created matches Action::CreateTap(tap)
            &&& bound matches Action::Control(ApiOp::ConfigureNetwork(cfg))
            &&& tap@ == net.tap@
            &&& cfg.host_dev_name@ == tap@
            &&& cfg.guest_mac@ == net.mac@
        }),
{
}

/// A boot goes on from every step that went well, unless there is no address for the VM, and ends with
/// every step that did not.
pub proof fn law_spawn_goes_on(run: SpawnRun, event: Event)
    ensures
        event is Done && !(run.phase is CreateDir) && run.phase != SpawnPhase::Configure(
            BootPhase::Start,
        ) ==> run.turning(event) is Go,
        event is Done && run.phase is CreateDir ==> (run.turning(event) is Go <==> (
        run.index matches Some(idx) ==> net::assignable(idx))),
        event is Done && run.phase == SpawnPhase::Configure(BootPhase::Start) ==> run.turning(event)
            is End,
        event is Failed && !(run.phase is Configure) ==> run.turning(event) is End,
        event is Refused && run.phase is Configure ==> run.turning(event) is End,
        run.turning(event) is Go ==> event is Done,
{
}

/// A boot stays about its own VM from step to step, and does in each step what the step is for.
pub proof fn law_spawn_stays_its_own(run: SpawnRun, event: Event, step: Step<SpawnRun, RunningVm>)
    requires
        run.leads_to(event, step),
    ensures
        step matches Step::Perform(next, action) ==> {
            &&& next.id == run.id
            &&& next.index == run.index
            &&& next.plan.art == run.plan.art
            &&& next.plan.work == run.plan.work
            &&& next.plan.vsock_uds == run.plan.vsock_uds
            &&& next.plan.mib == run.plan.mib
            &&& !(run.phase is CreateDir) ==> next.plan.net == run.plan.net
            &&& next.is_action(action)
            &&& run.turning(event) matches steps::Turning::Go(phase) ==> next.phase == phase
            &&& run.turning(event) is Stay ==> next == run
        },
        step is Finish <==> run.turning(event) is End,
        step matches Step::Finish(closings, result) ==> run.ends(event, closings@, result),
{
}

} // verus!
