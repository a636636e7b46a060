//! One step of the control loop: choose a move and have the hosts' daemons carry it out.
//!
//! The target is told to receive first and answers once it is listening; only then is the source
//! told to send.

use vstd::prelude::*;

use crate::ordered::OrderedMap;
use crate::proto::compat::CompatClass;
use crate::proto::ids;
use crate::proto::ids::{HostId, VmId};
use crate::rebalancer::placement;
use crate::rebalancer::placement::{pick_victim, Placement, Pressure, Rebalance};
use crate::text;
use crate::text::same_text;
use crate::time::Duration;

verus! {

/// Why a step failed.
#[derive(Debug, PartialEq, Eq)]
pub enum CtlError {
    /// A chosen host is not in the fleet.
    UnknownHost(HostId),
    /// A daemon's call failed.
    Daemon {
        /// The host whose daemon was called.
        host: HostId,
        /// The operation.
        op: &'static str,
        /// What went wrong.
        detail: String,
    },
}

/// How to reach one host's daemon and its data plane.
#[derive(Clone, Debug, PartialEq, Eq)]
pub struct HostEndpoint {
    /// The base URL of the daemon's control interface.
    pub control_url: String,
    /// What the host binds to receive a migration.
    pub data_listen: String,
    /// What a source connects to in order to reach this host.
    pub data_addr: String,
}

/// The hosts that can be reached.
pub struct Fleet {
    hosts: OrderedMap<HostId, HostEndpoint>,
}

impl Fleet {
    /// The hosts' endpoints.
    pub closed spec fn table(&self) -> Map<Seq<char>, HostEndpoint> {
        self.hosts@
    }

    /// A fleet without hosts.
    pub fn new() -> (fleet: Fleet)
        ensures
            fleet.table() == Map::<Seq<char>, HostEndpoint>::empty(),
    {
        Fleet { hosts: OrderedMap::new() }
    }

    /// Registers a host's endpoint, in place of an earlier one.
    pub fn add(&mut self, host: HostId, endpoint: HostEndpoint)
        ensures
            final(self).table() == old(self).table().insert(host@, endpoint),
    {
        self.hosts.insert(host, endpoint);
    }

    /// The endpoint of a host.
    fn endpoint(&self, host: &HostId) -> (r: Result<&HostEndpoint, CtlError>)
        ensures
            match r {
                Ok(endpoint) => self.table().contains_key(host@) && *endpoint
                    == self.table()[host@],
                Err(e) => !self.table().contains_key(host@) && (e matches CtlError::UnknownHost(h)
                    && h@ == host@),
            },
    {
        match self.hosts.get(host) {
            Some(endpoint) => Ok(endpoint),
            None => Err(CtlError::UnknownHost(host.clone())),
        }
    }
}

/// One call of a daemon.
pub ghost enum DaemonCall {
    /// Receive a migration.
    Recv {
        control_url: Seq<char>,
        listen: Seq<char>,
    },
    /// Send a VM.
    Send {
        control_url: Seq<char>,
        vm: Seq<char>,
        to: Seq<char>,
    },
}

/// The daemons' control interface.
pub trait DaemonApi: Sized {
    /// Every call so far and how it went, oldest first.
    ///
    /// This is ghost state. An implementation that is not verified cannot define it; the clauses
    /// below then say what it is relied on to do.
    closed spec fn log(&self) -> Seq<(DaemonCall, Result<(), String>)> {
        arbitrary()
    }

    /// Tells the daemon at `control_url` to receive a migration on `listen`. The call returns once
    /// the daemon is listening.
    fn migrate_recv(&mut self, control_url: &str, listen: &str) -> (r: Result<(), String>)
        ensures
            final(self).log() == old(self).log().push(
                (DaemonCall::Recv { control_url: control_url@, listen: listen@ }, r),
            ),
    ;

    /// Tells the daemon at `control_url` to send its VM `vm` to `to`.
    fn migrate_send(&mut self, control_url: &str, vm: &str, to: &str) -> (r: Result<(), String>)
        ensures
            final(self).log() == old(self).log().push(
                (DaemonCall::Send { control_url: control_url@, vm: vm@, to: to@ }, r),
            ),
    ;
}

/// What carrying out the move of `vm` from `from` to `to` does: `before` and `after` are the
/// daemons' logs around it.
pub open spec fn carried_out(
    fleet: Map<Seq<char>, HostEndpoint>,
    vm: VmId,
    from: Seq<char>,
    to: Seq<char>,
    before: Seq<(DaemonCall, Result<(), String>)>,
    after: Seq<(DaemonCall, Result<(), String>)>,
    r: Result<Option<Rebalance>, CtlError>,
) -> bool {
    if !fleet.contains_key(to) {
        after == before && (r matches Err(CtlError::UnknownHost(h)) && h@ == to)
    } else if !fleet.contains_key(from) {
        after == before && (r matches Err(CtlError::UnknownHost(h)) && h@ == from)
    } else {
        let target = fleet[to];
        let source = fleet[from];
        let n = before.len() as int;
        let recv = DaemonCall::Recv {
            control_url: target.control_url@,
            listen: target.data_listen@,
        };
        let send = DaemonCall::Send {
            control_url: source.control_url@,
            vm: ids::hyphenated(vm.bits),
            to: target.data_addr@,
        };
        &&& after.len() > n
        &&& after.take(n) == before
        &&& after[n].0 == recv
        &&& match after[n].1 {
            Err(d) => after.len() == n + 1 && (r matches Err(
                CtlError::Daemon { host, op, detail },
            ) && host@ == to && op@ == "recv"@ && detail == d),
            Ok(_) => {
                &&& after.len() == n + 2
                &&& after[n + 1].0 == send
                &&& match after[n + 1].1 {
                    Err(d) => r matches Err(CtlError::Daemon { host, op, detail }) && host@ == from
                        && op@ == "send"@ && detail == d,
                    Ok(_) => r matches Ok(Some(mv)) && mv.vm == vm && mv.from@ == from && mv.to@
                        == to,
                }
            },
        }
    }
}

/// Chooses the best move and carries it out, or does nothing where no move helps.
pub fn rebalance_once<A: DaemonApi>(
    placement: &Placement,
    pressure: &OrderedMap<HostId, Pressure>,
    idle: &OrderedMap<VmId, Duration>,
    high_watermark: Pressure,
    compat: &OrderedMap<HostId, CompatClass>,
    fleet: &Fleet,
    api: &mut A,
) -> (r: Result<Option<Rebalance>, CtlError>)
    ensures
        (forall|vm: VmId, from: Seq<char>, to: Seq<char>|
            !placement::is_best_move(
                placement,
                pressure@,
                idle@,
                high_watermark,
                compat@,
                vm,
                from,
                to,
            )) ==> r == Ok::<Option<Rebalance>, CtlError>(None) && final(api).log() == old(
            api,
        ).log(),
        forall|vm: VmId, from: Seq<char>, to: Seq<char>| #[trigger]
            placement::is_best_move(
                placement,
                pressure@,
                idle@,
                high_watermark,
                compat@,
                vm,
                from,
                to,
            ) ==> carried_out(
                fleet.table(),
                vm,
                from,
                to,
                old(api).log(),
                final(api).log(),
                r,
            ),
{
    let ghost before = api.log();
    let mv = match pick_victim(placement, pressure, idle, high_watermark, compat) {
        Some(mv) => mv,
        None => {
            return Ok(None);
        },
    };
    proof {
        assert forall|vm: VmId, from: Seq<char>, to: Seq<char>| #[trigger]
            placement::is_best_move(
                placement,
                pressure@,
                idle@,
                high_watermark,
                compat@,
                vm,
                from,
                to,
            ) implies vm == mv.vm && from == mv.from@ && to == mv.to@ by {
            placement::law_best_move_is_unique(
                placement,
                pressure@,
                idle@,
                high_watermark,
                compat@,
                (vm, from, to),
                (mv.vm, mv.from@, mv.to@),
            );
        }
    }
    let target = match fleet.endpoint(&mv.to) {
        Ok(target) => target,
        Err(e) => {
            return Err(e);
        },
    };
    let source = match fleet.endpoint(&mv.from) {
        Ok(source) => source,
        Err(e) => {
            return Err(e);
        },
    };
    let received = api.migrate_recv(&target.control_url, &target.data_listen);
    proof {
        assert(api.log().take(before.len() as int) =~= before);
    }
    if let Err(detail) = received {
        return Err(CtlError::Daemon { host: mv.to.clone(), op: "recv", detail });
    }
    let sent = api.migrate_send(&source.control_url, &mv.vm.to_text(), &target.data_addr);
    proof {
        assert(api.log().take(before.len() as int) =~= before);
    }
    if let Err(detail) = sent {
        return Err(CtlError::Daemon { host: mv.from.clone(), op: "send", detail });
    }
    Ok(Some(mv))
}

/// The target listens before the source sends: whenever a send was asked for, the call before it
/// told the target to receive and went well.
pub proof fn law_receiver_before_sender(
    fleet: Map<Seq<char>, HostEndpoint>,
    vm: VmId,
    from: Seq<char>,
    to: Seq<char>,
    before: Seq<(DaemonCall, Result<(), String>)>,
    after: Seq<(DaemonCall, Result<(), String>)>,
    r: Result<Option<Rebalance>, CtlError>,
    i: int,
)
    requires
        carried_out(fleet, vm, from, to, before, after, r),
        before.len() <= i < after.len(),
        after[i].0 is Send,
    ensures
        i == before.len() + 1,
        after[i - 1].0 is Recv,
        after[i - 1].1 is Ok,
{
}

// ---------------------------------------------------------------------------
// A daemon without a network
// ---------------------------------------------------------------------------

/// A recording stand-in for the daemons that can be primed to fail one call.
pub struct PseudoDaemon {
    calls: Vec<String>,
    fail: Option<&'static str>,
    log: Ghost<Seq<(DaemonCall, Result<(), String>)>>,
}

impl PseudoDaemon {
    /// The calls so far, each as `op url argument`.
    pub closed spec fn called(&self) -> Seq<Seq<char>> {
        text::views(self.calls@)
    }

    /// The operation that fails next.
    pub closed spec fn primed(&self) -> Option<Seq<char>> {
        match self.fail {
            Some(op) => Some(op@),
            None => None,
        }
    }

    /// Daemons whose every call succeeds.
    pub fn new() -> (daemon: PseudoDaemon)
        ensures
            daemon.called() == Seq::<Seq<char>>::empty(),
            daemon.primed() is None,
            daemon.log() == Seq::<(DaemonCall, Result<(), String>)>::empty(),
    {
        let daemon = PseudoDaemon { calls: Vec::new(), fail: None, log: Ghost(Seq::empty()) };
        proof {
            assert(daemon.called() =~= Seq::<Seq<char>>::empty());
        }
        daemon
    }

    /// Makes the next call of `op` fail.
    pub fn fail_on(&mut self, op: &'static str)
        ensures
            final(self).primed() == Some(op@),
            final(self).called() == old(self).called(),
            final(self).log() == old(self).log(),
    {
        self.fail = Some(op);
    }

    /// The calls so far, each as `op url argument`.
    pub fn calls(&self) -> (calls: &Vec<String>)
        ensures
            text::views(calls@) == self.called(),
    {
        &self.calls
    }

    /// Keeps the call and fails it where it is primed to fail, once.
    fn record(&mut self, op: &'static str, url: &str, arg: &str) -> (r: Result<(), String>)
        ensures
            final(self).log() == old(self).log(),
            daemon_recorded(*old(self), *final(self), op@, url@, arg@, r),
    {
        let mut line = op.to_owned();
        line.append(" ");
        line.append(url);
        line.append(" ");
        line.append(arg);
        let ghost before = self.called();
        let ghost words = line@;
        self.calls.push(line);
        proof {
            assert(self.called() =~= before.push(words));
        }
        let failing: bool = match self.fail {
            Some(failed_op) => same_text(failed_op, op),
            None => false,
        };
        if failing {
            self.fail = None;
            let mut detail = "injected failure on ".to_owned();
            detail.append(op);
            return Err(detail);
        }
        Ok(())
    }
}

/// What a call of `op` does to the stand-in and how it ends.
pub open spec fn daemon_recorded(
    before: PseudoDaemon,
    after: PseudoDaemon,
    op: Seq<char>,
    url: Seq<char>,
    arg: Seq<char>,
    r: Result<(), String>,
) -> bool {
    &&& after.called() == before.called().push(op + " "@ + url + " "@ + arg)
    &&& if before.primed() == Some(op) {
        after.primed() is None && (r matches Err(detail) && detail@ == "injected failure on "@ + op)
    } else {
        after.primed() == before.primed() && r == Ok::<(), String>(())
    }
}

impl DaemonApi for PseudoDaemon {
    closed spec fn log(&self) -> Seq<(DaemonCall, Result<(), String>)> {
        self.log@
    }

    fn migrate_recv(&mut self, control_url: &str, listen: &str) -> (r: Result<(), String>)
        ensures
            daemon_recorded(*old(self), *final(self), "recv"@, control_url@, listen@, r),
    {
        let r = self.record("recv", control_url, listen);
        self.log = Ghost(
            self.log@.push((DaemonCall::Recv { control_url: control_url@, listen: listen@ }, r)),
        );
        r
    }

    fn migrate_send(&mut self, control_url: &str, vm: &str, to: &str) -> (r: Result<(), String>)
        ensures
            daemon_recorded(
                *old(self),
                *final(self),
                "send"@,
                control_url@,
                vm@ + " "@ + to@,
                r,
            ),
    {
        let mut arg = vm.to_owned();
        arg.append(" ");
        arg.append(to);
        let r = self.record("send", control_url, &arg);
        self.log = Ghost(
            self.log@.push(
                (DaemonCall::Send { control_url: control_url@, vm: vm@, to: to@ }, r),
            ),
        );
        r
    }
}

/// Each daemon is asked for its own part: the target's to receive where it listens, the source's to
/// send the VM to where the target is reached. No daemon is asked for more, and one that fails is the
/// one that is blamed.
pub proof fn law_each_daemon_has_its_part(
    fleet: Map<Seq<char>, HostEndpoint>,
    vm: VmId,
    from: Seq<char>,
    to: Seq<char>,
    before: Seq<(DaemonCall, Result<(), String>)>,
    after: Seq<(DaemonCall, Result<(), String>)>,
    r: Result<Option<Rebalance>, CtlError>,
    i: int,
)
    requires
        carried_out(fleet, vm, from, to, before, after, r),
        before.len() <= i < after.len(),
    ensures
        fleet.contains_key(from) && fleet.contains_key(to),
        match after[i].0 {
            DaemonCall::Recv { control_url, listen } => control_url == fleet[to].control_url@
                && listen == fleet[to].data_listen@,
            DaemonCall::Send { control_url, vm: which, to: addr } => control_url
                == fleet[from].control_url@ && which == ids::hyphenated(vm.bits) && addr
                == fleet[to].data_addr@,
        },
        after[i].1 is Err ==> i == after.len() - 1 && (r matches Err(
            CtlError::Daemon { host, op, detail },
        ) && (host@, op@) == (if after[i].0 is Recv {
            (to, "recv"@)
        } else {
            (from, "send"@)
        }) && Err::<(), String>(detail) == after[i].1),
        r is Ok ==> after[i].1 is Ok && after.len() == before.len() + 2,
{
}

/// A move is reported as it was picked, and only where both daemons did their part.
pub proof fn law_reported_move_was_made(
    fleet: Map<Seq<char>, HostEndpoint>,
    vm: VmId,
    from: Seq<char>,
    to: Seq<char>,
    before: Seq<(DaemonCall, Result<(), String>)>,
    after: Seq<(DaemonCall, Result<(), String>)>,
    r: Result<Option<Rebalance>, CtlError>,
)
    requires
        carried_out(fleet, vm, from, to, before, after, r),
    ensures
        r matches Ok(done) ==> (done matches Some(mv) && mv.vm == vm && mv.from@ == from && mv.to@
            == to),
        r is Ok ==> after.len() == before.len() + 2 && after.last().0 is Send && after.last().1 is Ok,
        !fleet.contains_key(to) || !fleet.contains_key(from) ==> r is Err && after == before,
        r matches Err(CtlError::UnknownHost(h)) ==> !fleet.contains_key(h@) && (h@ == from || h@
            == to),
{
}

/// A stand-in that was told to fail an operation fails the next one of that name and then no more.
pub proof fn law_primed_failure_comes_once(
    start: PseudoDaemon,
    failed: PseudoDaemon,
    end: PseudoDaemon,
    op: Seq<char>,
    url: Seq<char>,
    arg: Seq<char>,
    results: (Result<(), String>, Result<(), String>),
)
    requires
        start.primed() == Some(op),
        daemon_recorded(start, failed, op, url, arg, results.0),
        daemon_recorded(failed, end, op, url, arg, results.1),
    ensures
        results.0 matches Err(why) && text::ends_with(why@, op),
        results.1 is Ok,
        text::starts_with(failed.called().last(), op),
        text::ends_with(failed.called().last(), arg),
        end.called().len() == start.called().len() + 2,
{
    text::law_parts_are_found("injected failure on "@, op, Seq::empty());
    let line = op + " "@ + url + " "@ + arg;
    text::law_parts_are_found(op + " "@ + url + " "@, arg, Seq::empty());
    assert(line =~= op + (" "@ + url + " "@ + arg));
    text::law_parts_are_found(Seq::empty(), op, " "@ + url + " "@ + arg);
}

/// What was asked of the daemons before stays asked, and a move adds at most two calls to it.
pub proof fn law_calls_are_added(
    fleet: Map<Seq<char>, HostEndpoint>,
    vm: VmId,
    from: Seq<char>,
    to: Seq<char>,
    before: Seq<(DaemonCall, Result<(), String>)>,
    after: Seq<(DaemonCall, Result<(), String>)>,
    r: Result<Option<Rebalance>, CtlError>,
)
    requires
        carried_out(fleet, vm, from, to, before, after, r),
    ensures
        before.len() <= after.len() <= before.len() + 2,
        after.take(before.len() as int) == before,
        fleet.contains_key(from) && fleet.contains_key(to) ==> after.len() > before.len()
            && after[before.len() as int].0 is Recv,
        after.len() == before.len() + 1 ==> after.last().1 is Err,
{
    assert(before.take(before.len() as int) =~= before);
}

} // verus!
