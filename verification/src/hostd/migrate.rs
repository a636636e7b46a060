//! The move of one VM from host to host.
//!
//! The source drains the guest to an idle gap, and only then pauses it, snapshots it and sends the
//! snapshot. The target receives the snapshot, restores it behind a page server and lets it run on.

use vstd::prelude::*;

use crate::hostd::firecracker::{ApiOp, MemBackend, SnapshotSource};
use crate::hostd::guestlink::DrainState;
use crate::hostd::net::NetId;
use crate::hostd::registry::RunningVm;
use crate::hostd::steps;
use crate::hostd::steps::{
    io_error, launch, next_boot_phase, run_path, snapshot_action, Action, Artifacts, BootPhase,
    BootPlan, Clock, Closing, Event, MigrateError, SnapshotPhase, SourceTiming, Step,
};
use crate::hostd::transfer;
use crate::paths;
use crate::paths::join;
use crate::proto::ids;
use crate::proto::ids::VmId;
use crate::proto::{GUEST_DRAIN_TCP_PORT, GUEST_VSOCK_PORT};
use crate::text;
use crate::text::{begins_with, decimal_of, finishes_with, trimmed};
use crate::time;
use crate::time::Duration;

verus! {

/// The memory of a VM that is booted to be moved, in MiB.
pub const GUEST_MIB: u32 = 256;

/// How long a guest has to drain, in seconds.
pub const DRAIN_SECS: u64 = 5;

/// How long the host tries to reach a guest, in seconds.
pub const CONNECT_SECS: u64 = 20;

/// How long a restored guest is left alone before it counts as running, in milliseconds.
pub const SETTLE_MS: u64 = 300;

// ---------------------------------------------------------------------------
// The files that a VM is booted from
// ---------------------------------------------------------------------------

/// A file of a directory.
#[derive(Debug, PartialEq, Eq)]
pub struct DirFile {
    /// Its name.
    pub name: String,
    /// Its path.
    pub path: String,
}

/// A directory with all that lies under it.
#[derive(Debug, PartialEq, Eq)]
pub struct DirTree {
    /// Its files.
    pub files: Vec<DirFile>,
    /// Its directories.
    pub dirs: Vec<DirTree>,
}

/// A kind of file that a VM is booted from.
#[derive(Clone, Copy, Debug, PartialEq, Eq, Structural)]
pub enum ArtifactKind {
    /// The Firecracker binary.
    Firecracker,
    /// The guest's kernel.
    Kernel,
    /// The image of the root disk, with the guest daemon in it.
    Rootfs,
    /// An image of a root disk without the guest daemon.
    PlainRootfs,
}

impl ArtifactKind {
    /// Whether a file of this name is of this kind.
    pub open spec fn named(self, name: Seq<char>) -> bool {
        match self {
            ArtifactKind::Firecracker => text::starts_with(name, "firecracker-"@)
                && !text::ends_with(name, ".debug"@) && !text::ends_with(name, ".tgz"@),
            ArtifactKind::Kernel => text::starts_with(name, "vmlinux"@),
            ArtifactKind::Rootfs => text::starts_with(name, "guestd-rootfs"@),
            ArtifactKind::PlainRootfs => text::ends_with(name, ".squashfs"@) || text::ends_with(
                name,
                ".ext4"@,
            ),
        }
    }

    /// Whether a file of this name is of this kind.
    pub fn matches_name(self, name: &str) -> (yes: bool)
        ensures
            yes == self.named(name@),
    {
        match self {
            ArtifactKind::Firecracker => begins_with(name, "firecracker-") && !finishes_with(
                name,
                ".debug",
            ) && !finishes_with(name, ".tgz"),
            ArtifactKind::Kernel => begins_with(name, "vmlinux"),
            ArtifactKind::Rootfs => begins_with(name, "guestd-rootfs"),
            ArtifactKind::PlainRootfs => finishes_with(name, ".squashfs") || finishes_with(
                name,
                ".ext4",
            ),
        }
    }
}

/// The first of `files` from `i` on that is of this kind.
pub open spec fn first_file(files: Seq<DirFile>, kind: ArtifactKind, i: int) -> Option<Seq<char>>
    decreases files.len() - i,
{
    if i < 0 || i >= files.len() {
        None
    } else if kind.named(files[i].name@) {
        Some(files[i].path@)
    } else {
        first_file(files, kind, i + 1)
    }
}

/// The file of this kind under a directory: the first of its own files, or else what the first of
/// its directories has that has one.
pub open spec fn found(dir: DirTree, kind: ArtifactKind) -> Option<Seq<char>>
    decreases dir, 0int,
{
    match first_file(dir.files@, kind, 0) {
        Some(path) => Some(path),
        None => found_among(dir.dirs@, kind),
    }
}

/// What the first of the directories has that has a file of this kind.
pub open spec fn found_among(dirs: Seq<DirTree>, kind: ArtifactKind) -> Option<Seq<char>>
    decreases dirs, dirs.len(),
{
    if dirs.len() == 0 {
        None
    } else {
        match found_among(dirs.drop_last(), kind) {
            Some(path) => Some(path),
            None => found(dirs.last(), kind),
        }
    }
}

/// Finds the file of this kind under a directory.
pub fn find(dir: &DirTree, kind: ArtifactKind) -> (path: Option<String>)
    ensures
        match path {
            Some(p) => found(*dir, kind) == Some(p@),
            None => found(*dir, kind) is None,
        },
    decreases dir,
{
    let mut i: usize = 0;
    while i < dir.files.len()
        invariant
            i <= dir.files@.len(),
            first_file(dir.files@, kind, 0) == first_file(dir.files@, kind, i as int),
        decreases dir.files@.len() - i,
    {
        if kind.matches_name(&dir.files[i].name) {
            return Some(dir.files[i].path.as_str().to_owned());
        }
        i = i + 1;
    }
    let mut j: usize = 0;
    proof {
        assert(dir.dirs@.take(0) =~= Seq::empty());
    }
    while j < dir.dirs.len()
        invariant
            j <= dir.dirs@.len(),
            first_file(dir.files@, kind, 0) is None,
            found_among(dir.dirs@.take(j as int), kind) is None,
        decreases dir.dirs@.len() - j,
    {
        let path = find(&dir.dirs[j], kind);
        proof {
            let upto = dir.dirs@.take(j + 1);
            assert(upto.drop_last() =~= dir.dirs@.take(j as int));
            assert(upto.last() == dir.dirs@[j as int]);
        }
        if path.is_some() {
            proof {
                lemma_found_stays(dir.dirs@, kind, j + 1);
            }
            return path;
        }
        j = j + 1;
    }
    proof {
        assert(dir.dirs@.take(j as int) =~= dir.dirs@);
    }
    None
}

/// What the first directories have is what all have.
proof fn lemma_found_stays(dirs: Seq<DirTree>, kind: ArtifactKind, n: int)
    requires
        0 <= n <= dirs.len(),
        found_among(dirs.take(n), kind) is Some,
    ensures
        found_among(dirs, kind) == found_among(dirs.take(n), kind),
    decreases dirs.len() - n,
{
    if n == dirs.len() {
        assert(dirs.take(n) =~= dirs);
    } else {
        assert(dirs.take(n + 1).drop_last() =~= dirs.take(n));
        lemma_found_stays(dirs, kind, n + 1);
    }
}

/// What is missing where a kind of file is not found.
pub open spec fn missing(kind: ArtifactKind) -> Seq<char> {
    match kind {
        ArtifactKind::Firecracker => "firecracker binary"@,
        ArtifactKind::Kernel => "kernel"@,
        ArtifactKind::Rootfs => "guestd rootfs (run `just guest-rootfs`)"@,
        ArtifactKind::PlainRootfs => "rootfs"@,
    }
}

/// Where the root disk's image lies: at `rootfs`, where that is given, or under `dir`.
pub open spec fn rootfs_path(dir: DirTree, rootfs: Option<String>) -> Option<Seq<char>> {
    match rootfs {
        Some(path) => Some(path@),
        None => found(dir, ArtifactKind::Rootfs),
    }
}

/// The first kind of file that is not there.
pub open spec fn first_missing(dir: DirTree, rootfs: Option<String>) -> Option<ArtifactKind> {
    if rootfs_path(dir, rootfs) is None {
        Some(ArtifactKind::Rootfs)
    } else if found(dir, ArtifactKind::Firecracker) is None {
        Some(ArtifactKind::Firecracker)
    } else if found(dir, ArtifactKind::Kernel) is None {
        Some(ArtifactKind::Kernel)
    } else {
        None
    }
}

/// Locates the files that a VM is booted from under `dir`. The root disk's image can be given.
pub fn discover_artifacts(dir: &DirTree, rootfs: Option<String>) -> (r: Result<
    Artifacts,
    MigrateError,
>)
    ensures
        match r {
            Ok(art) => {
                &&& first_missing(*dir, rootfs) is None
                &&& found(*dir, ArtifactKind::Firecracker) == Some(art.fc_bin@)
                &&& found(*dir, ArtifactKind::Kernel) == Some(art.kernel@)
                &&& rootfs_path(*dir, rootfs) == Some(art.rootfs@)
            },
            Err(e) => first_missing(*dir, rootfs) matches Some(kind) && (
            e matches MigrateError::MissingArtifact(what) && what@ == missing(kind)),
        },
{
    let rootfs = match rootfs {
        Some(path) => path,
        None => match find(dir, ArtifactKind::Rootfs) {
            Some(path) => path,
            None => {
                return Err(
                    MigrateError::MissingArtifact("guestd rootfs (run `just guest-rootfs`)"),
                );
            },
        },
    };
    let fc_bin = match find(dir, ArtifactKind::Firecracker) {
        Some(path) => path,
        None => {
            return Err(MigrateError::MissingArtifact("firecracker binary"));
        },
    };
    let kernel = match find(dir, ArtifactKind::Kernel) {
        Some(path) => path,
        None => {
            return Err(MigrateError::MissingArtifact("kernel"));
        },
    };
    Ok(Artifacts { fc_bin, kernel, rootfs })
}

// ---------------------------------------------------------------------------
// A snapshot's course, at whichever source
// ---------------------------------------------------------------------------

/// Where a snapshot goes from `event`: on, or to its end.
pub open spec fn snapshot_turning(phase: SnapshotPhase, event: Event) -> steps::Turning<
    SnapshotPhase,
> {
    match (phase, event) {
        (SnapshotPhase::Pause, Event::Done) => steps::Turning::Go(SnapshotPhase::Write),
        (SnapshotPhase::Pause, Event::Refused(_)) => steps::Turning::End,
        (SnapshotPhase::Write, Event::Done) => steps::Turning::Go(SnapshotPhase::Send),
        (SnapshotPhase::Write, Event::Refused(_)) => steps::Turning::End,
        (SnapshotPhase::Send, Event::Done) => steps::Turning::Go(SnapshotPhase::Measure),
        (SnapshotPhase::Send, Event::Broken(_)) => steps::Turning::End,
        (SnapshotPhase::Measure, Event::Length(_)) => steps::Turning::End,
        _ => steps::Turning::Stay,
    }
}

/// The clock of a run that enters `phase` at `now`.
pub open spec fn ticked(clock: Clock, phase: SnapshotPhase, now: Duration) -> Clock {
    match phase {
        SnapshotPhase::Pause => Clock { begun: now, ..clock },
        SnapshotPhase::Write => clock,
        SnapshotPhase::Send => Clock { written: now, ..clock },
        SnapshotPhase::Measure => Clock { sent: now, ..clock },
    }
}

/// The clock of a run that enters `phase` at `now`.
fn tick(clock: Clock, phase: SnapshotPhase, now: Duration) -> (ticking: Clock)
    ensures
        ticking == ticked(clock, phase, now),
{
    match phase {
        SnapshotPhase::Pause => Clock { begun: now, ..clock },
        SnapshotPhase::Write => clock,
        SnapshotPhase::Send => Clock { written: now, ..clock },
        SnapshotPhase::Measure => Clock { sent: now, ..clock },
    }
}

/// How a snapshot ended.
pub enum SnapshotEnd {
    /// It was sent, and its memory has this length, if that could be found out.
    Sent(Option<u64>),
    /// It failed.
    Failed(MigrateError),
}

/// What a snapshot comes to with `event`.
pub enum SnapshotNext {
    /// The action stands.
    Stay,
    /// On to this phase.
    Go(SnapshotPhase),
    /// To the end.
    End(SnapshotEnd),
}

/// Whether `end` is how a snapshot ends in `phase` with `event`.
pub open spec fn snapshot_ends(phase: SnapshotPhase, event: Event, end: SnapshotEnd) -> bool {
    match event {
        Event::Refused(e) => end == SnapshotEnd::Failed(MigrateError::Firecracker(e)),
        Event::Broken(e) => end == SnapshotEnd::Failed(MigrateError::Transfer(e)),
        Event::Length(n) => end == SnapshotEnd::Sent(n),
        _ => false,
    }
}

/// What a snapshot comes to with `event`.
fn snapshot_next(phase: SnapshotPhase, event: Event) -> (next: SnapshotNext)
    ensures
        match snapshot_turning(phase, event) {
            steps::Turning::Stay => next is Stay,
            steps::Turning::Go(p) => next == SnapshotNext::Go(p),
            steps::Turning::End => next matches SnapshotNext::End(end) && snapshot_ends(
                phase,
                event,
                end,
            ),
        },
{
    match (phase, event) {
        (SnapshotPhase::Pause, Event::Done) => SnapshotNext::Go(SnapshotPhase::Write),
        (SnapshotPhase::Write, Event::Done) => SnapshotNext::Go(SnapshotPhase::Send),
        (SnapshotPhase::Send, Event::Done) => SnapshotNext::Go(SnapshotPhase::Measure),
        (SnapshotPhase::Pause, Event::Refused(e)) => SnapshotNext::End(
            SnapshotEnd::Failed(MigrateError::Firecracker(e)),
        ),
        (SnapshotPhase::Write, Event::Refused(e)) => SnapshotNext::End(
            SnapshotEnd::Failed(MigrateError::Firecracker(e)),
        ),
        (SnapshotPhase::Send, Event::Broken(e)) => SnapshotNext::End(
            SnapshotEnd::Failed(MigrateError::Transfer(e)),
        ),
        (SnapshotPhase::Measure, Event::Length(n)) => SnapshotNext::End(SnapshotEnd::Sent(n)),
        _ => SnapshotNext::Stay,
    }
}

/// What counts a migration that succeeded.
pub open spec fn counted(timing: SourceTiming) -> steps::Act {
    let sum = timing.snapshot@ + timing.transfer@;
    steps::Act::CountMoved {
        freeze: if sum <= time::max_nanos() {
            sum
        } else {
            time::max_nanos()
        },
        bytes: timing.bytes,
    }
}

/// What counts a migration that succeeded.
fn count(timing: &SourceTiming) -> (closing: Closing)
    ensures
        closing.act() == counted(*timing),
{
    Closing::CountMoved { freeze: timing.freeze(), bytes: timing.bytes }
}

// ---------------------------------------------------------------------------
// The source: a VM that is booted to be moved
// ---------------------------------------------------------------------------

/// How far the move of a VM that is booted for it has come.
#[derive(Clone, Copy, Debug, PartialEq, Eq, Structural)]
pub enum SourcePhase {
    /// Its directory is being created.
    CreateDir,
    /// Its Firecracker process is being started.
    Launch,
    /// It is being configured and started.
    Configure(BootPhase),
    /// Its guest is being reached.
    Connect,
    /// The boot handshake is going on.
    Handshake,
    /// The guest is draining.
    Drain,
    /// The link to the guest is being closed.
    CloseLink,
    /// The snapshot is being taken and sent.
    Freeze(SnapshotPhase),
}

/// The move of a VM that is booted for it.
#[derive(Debug, PartialEq, Eq)]
pub struct SourceRun {
    /// The VM.
    pub plan: BootPlan,
    /// The target.
    pub addr: String,
    /// How far the move has come.
    pub phase: SourcePhase,
    /// When the parts of the snapshot began and ended.
    pub clock: Clock,
}

/// Whether `action` connects to a guest over vsock.
pub open spec fn is_vsock_connect(uds: Seq<char>, action: Action) -> bool {
    action matches Action::ConnectVsock { uds: u, port, timeout } && u@ == uds && port
        == GUEST_VSOCK_PORT && timeout@ == CONNECT_SECS * 1_000_000_000
}

/// Whether `action` asks a guest to drain.
pub open spec fn is_drain(action: Action) -> bool {
    action matches Action::Drain { deadline } && deadline@ == DRAIN_SECS * 1_000_000_000
}

/// Boots a VM from `art`, drains it, snapshots it and sends it to `addr`. The process `pid` numbers
/// its directories and sockets: `seq` is the directory's number and `vsock_seq` the socket's.
pub fn migrate_source(
    art: Artifacts,
    addr: &str,
    temp: &str,
    pid: u32,
    seq: u64,
    vsock_seq: u64,
) -> (step: Step<SourceRun, SourceTiming>)
    ensures
        step matches Step::Perform(run, action) && {
            &&& run.plan.art == art
            &&& run.plan.mib == GUEST_MIB
            &&& run.plan.net is None
            &&& run.plan.work@ == paths::under(
                temp@,
                steps::run_name("sleepwalk-src-"@, pid, seq, ""@),
            )
            &&& run.plan.vsock_uds@ == paths::under(
                temp@,
                steps::run_name("sleepwalk-vsock-"@, pid, vsock_seq, ".sock"@),
            )
            &&& run.addr@ == addr@
            &&& run.phase is CreateDir
            &&& run.is_action(action)
        },
{
    let plan = BootPlan {
        art,
        work: run_path(temp, "sleepwalk-src-", pid, seq, ""),
        vsock_uds: run_path(temp, "sleepwalk-vsock-", pid, vsock_seq, ".sock"),
        mib: GUEST_MIB,
        net: None,
    };
    let run = SourceRun {
        plan,
        addr: addr.to_owned(),
        phase: SourcePhase::CreateDir,
        clock: Clock::new(),
    };
    let action = run.action();
    Step::Perform(run, action)
}

impl SourceRun {
    /// Whether the run is in order: a VM that is booted to be moved has no network.
    pub open spec fn wf(&self) -> bool {
        self.plan.net is None && self.phase != SourcePhase::Configure(BootPhase::Network)
    }

    /// Whether `action` is the one of the run's phase.
    pub open spec fn is_action(&self, action: Action) -> bool {
        match self.phase {
            SourcePhase::CreateDir => action matches Action::CreateDir(dir) && dir@
                == self.plan.work@,
            SourcePhase::Launch => self.plan.is_launch(action),
            SourcePhase::Configure(p) => action matches Action::Control(op) && self.plan.is_op(
                p,
                op,
            ),
            SourcePhase::Connect => is_vsock_connect(self.plan.vsock_uds@, action),
            SourcePhase::Handshake => action is Handshake,
            SourcePhase::Drain => is_drain(action),
            SourcePhase::CloseLink => action is CloseLink,
            SourcePhase::Freeze(p) => steps::is_snapshot_action(
                self.plan.work@,
                self.addr@,
                Seq::empty(),
                p,
                action,
            ),
        }
    }

    /// Where the move goes from `event`.
    pub open spec fn turning(phase: SourcePhase, event: Event) -> steps::Turning<SourcePhase> {
        match (phase, event) {
            (SourcePhase::Freeze(p), e) => match snapshot_turning(p, e) {
                steps::Turning::Stay => steps::Turning::Stay,
                steps::Turning::Go(q) => steps::Turning::Go(SourcePhase::Freeze(q)),
                steps::Turning::End => steps::Turning::End,
            },
            (SourcePhase::Configure(p), Event::Done) => match steps::following(p, false) {
                Some(q) => steps::Turning::Go(SourcePhase::Configure(q)),
                None => steps::Turning::Go(SourcePhase::Connect),
            },
            (SourcePhase::Configure(_), Event::Refused(_)) => steps::Turning::End,
            (SourcePhase::Configure(_), _) => steps::Turning::Stay,
            (SourcePhase::CloseLink, Event::Done) => steps::Turning::Go(
                SourcePhase::Freeze(SnapshotPhase::Pause),
            ),
            (SourcePhase::CloseLink, _) => steps::Turning::Stay,
            (SourcePhase::Drain, Event::Drained(DrainState::Quiescent)) => steps::Turning::Go(
                SourcePhase::CloseLink,
            ),
            (SourcePhase::Drain, Event::Drained(DrainState::Busy)) => steps::Turning::End,
            (SourcePhase::Drain, Event::Done) => steps::Turning::Stay,
            (_, Event::Failed(_)) => steps::Turning::End,
            (SourcePhase::CreateDir, Event::Done) => steps::Turning::Go(SourcePhase::Launch),
            (SourcePhase::Launch, Event::Done) => steps::Turning::Go(
                SourcePhase::Configure(BootPhase::Machine),
            ),
            (SourcePhase::Connect, Event::Done) => steps::Turning::Go(SourcePhase::Handshake),
            (SourcePhase::Handshake, Event::Done) => steps::Turning::Go(SourcePhase::Drain),
            _ => steps::Turning::Stay,
        }
    }

    /// What clears the VM away.
    pub open spec fn cleared(&self) -> Seq<steps::Act> {
        seq![
            steps::Act::Kill,
            steps::Act::RemoveDir(self.plan.work@),
            steps::Act::RemoveFile(self.plan.vsock_uds@),
        ]
    }

    /// How the move ends with `event`.
    pub open spec fn ends(
        &self,
        event: Event,
        closings: Seq<Closing>,
        result: Result<SourceTiming, MigrateError>,
    ) -> bool {
        let acts = steps::acts(closings);
        match (self.phase, event) {
            (SourcePhase::CreateDir, Event::Failed(why)) => closings.len() == 0 && (
            result matches Err(e) && steps::is_io_error(e, "create work dir"@, why@)),
            (SourcePhase::Launch, Event::Failed(why)) => closings.len() == 0 && (
            result matches Err(e) && steps::is_io_error(e, "spawn firecracker"@, why@)),
            (SourcePhase::Configure(_), Event::Refused(why)) => acts == seq![steps::Act::Kill]
                && result == Err::<SourceTiming, MigrateError>(MigrateError::Firecracker(why)),
            (SourcePhase::Connect, Event::Failed(why)) => acts == self.cleared() && (
            result matches Err(e) && steps::is_io_error(e, "connect guest vsock"@, why@)),
            (SourcePhase::Handshake, Event::Failed(why)) => acts == self.cleared() && (
            result matches Err(e) && steps::is_io_error(e, "guest handshake"@, why@)),
            (SourcePhase::Drain, Event::Failed(why)) => acts == self.cleared() && (
            result matches Err(e) && steps::is_io_error(e, "drain guest"@, why@)),
            (SourcePhase::Drain, _) => acts == self.cleared() && result == Err::<
                SourceTiming,
                MigrateError,
            >(MigrateError::NotQuiescent),
            (SourcePhase::Freeze(p), Event::Length(n)) => result matches Ok(timing)
                && self.clock.says(n, timing) && acts == self.cleared().push(counted(timing)),
            (SourcePhase::Freeze(p), _) => acts == seq![steps::Act::Kill] && (result matches Err(e)
                && snapshot_ends(p, event, SnapshotEnd::Failed(e))),
            _ => false,
        }
    }

    /// The clock of the run once it is in `phase`, entered at `now`.
    pub open spec fn ticks(&self, phase: SourcePhase, now: Duration) -> Clock {
        match phase {
            SourcePhase::Freeze(p) => ticked(self.clock, p, now),
            _ => self.clock,
        }
    }

    /// Whether `step` is what follows `event` at `now`.
    pub open spec fn leads_to(
        &self,
        event: Event,
        now: Duration,
        step: Step<SourceRun, SourceTiming>,
    ) -> bool {
        match SourceRun::turning(self.phase, event) {
            steps::Turning::Stay => step matches Step::Perform(run, action) && run == *self
                && run.is_action(action),
            steps::Turning::Go(phase) => step matches Step::Perform(run, action) && {
                &&& run == (SourceRun { phase, clock: self.ticks(phase, now), ..*self })
                &&& run.wf()
                &&& run.is_action(action)
            },
            steps::Turning::End => step matches Step::Finish(closings, result) && self.ends(
                event,
                closings@,
                result,
            ),
        }
    }

    /// The action of the run's phase.
    fn action(&self) -> (action: Action)
        requires
            self.wf(),
        ensures
            self.is_action(action),
    {
        match self.phase {
            SourcePhase::CreateDir => Action::CreateDir(self.plan.work.as_str().to_owned()),
            SourcePhase::Launch => self.plan.launch(),
            SourcePhase::Configure(p) => Action::Control(self.plan.op(p)),
            SourcePhase::Connect => Action::ConnectVsock {
                uds: self.plan.vsock_uds.as_str().to_owned(),
                port: GUEST_VSOCK_PORT,
                timeout: Duration::from_secs(CONNECT_SECS),
            },
            SourcePhase::Handshake => Action::Handshake,
            SourcePhase::Drain => Action::Drain { deadline: Duration::from_secs(DRAIN_SECS) },
            SourcePhase::CloseLink => Action::CloseLink,
            SourcePhase::Freeze(p) => {
                let extra: Vec<&'static str> = Vec::new();
                proof {
                    assert(text::literal_views(extra@) =~= Seq::empty());
                }
                snapshot_action(&self.plan.work, &self.addr, &extra, p)
            },
        }
    }

    /// The run in `phase`, entered at `now`, with its action.
    fn go(self, phase: SourcePhase, now: Duration) -> (step: Step<SourceRun, SourceTiming>)
        requires
            self.plan.net is None,
            phase != SourcePhase::Configure(BootPhase::Network),
        ensures
            step matches Step::Perform(run, action) && run == (SourceRun {
                phase,
                clock: self.ticks(phase, now),
                ..self
            }) && run.is_action(action),
    {
        let clock = match phase {
            SourcePhase::Freeze(p) => tick(self.clock, p, now),
            _ => self.clock,
        };
        let run = SourceRun { phase, clock, ..self };
        let action = run.action();
        Step::Perform(run, action)
    }

    /// What clears the VM away.
    fn clear(self) -> (closings: Vec<Closing>)
        ensures
            steps::acts(closings@) == self.cleared(),
    {
        let ghost run = self;
        let mut closings: Vec<Closing> = Vec::new();
        closings.push(Closing::Kill);
        closings.push(Closing::RemoveDir(self.plan.work));
        closings.push(Closing::RemoveFile(self.plan.vsock_uds));
        proof {
            assert(steps::acts(closings@) =~= run.cleared());
        }
        closings
    }

    /// What follows `event`, which came of the last action, at `now`.
    pub fn step(self, event: Event, now: Duration) -> (step: Step<SourceRun, SourceTiming>)
        requires
            self.wf(),
        ensures
            self.leads_to(event, now, step),
    {
        let ghost run = self;
        let phase = self.phase;
        match (phase, event) {
            (SourcePhase::Freeze(p), event) => match snapshot_next(p, event) {
                SnapshotNext::Stay => {
                    let action = self.action();
                    Step::Perform(self, action)
                },
                SnapshotNext::Go(q) => self.go(SourcePhase::Freeze(q), now),
                SnapshotNext::End(SnapshotEnd::Sent(n)) => {
                    let timing = self.clock.timing(n);
                    let mut closings = self.clear();
                    let ghost before = closings@;
                    closings.push(count(&timing));
                    proof {
                        assert(steps::acts(closings@) =~= steps::acts(before).push(
                            counted(timing),
                        ));
                    }
                    Step::Finish(closings, Ok(timing))
                },
                SnapshotNext::End(SnapshotEnd::Failed(e)) => killed(e),
            },
            (SourcePhase::CreateDir, Event::Done) => self.go(SourcePhase::Launch, now),
            (SourcePhase::Launch, Event::Done) => self.go(
                SourcePhase::Configure(BootPhase::Machine),
                now,
            ),
            (SourcePhase::Configure(p), Event::Done) => match next_boot_phase(p, false) {
                Some(q) => self.go(SourcePhase::Configure(q), now),
                None => self.go(SourcePhase::Connect, now),
            },
            (SourcePhase::Connect, Event::Done) => self.go(SourcePhase::Handshake, now),
            (SourcePhase::Handshake, Event::Done) => self.go(SourcePhase::Drain, now),
            (SourcePhase::Drain, Event::Drained(DrainState::Quiescent)) => self.go(
                SourcePhase::CloseLink,
                now,
            ),
            (SourcePhase::CloseLink, Event::Done) => self.go(
                SourcePhase::Freeze(SnapshotPhase::Pause),
                now,
            ),
            (SourcePhase::CreateDir, Event::Failed(why)) => Step::Finish(
                Vec::new(),
                Err(io_error("create work dir", why)),
            ),
            (SourcePhase::Launch, Event::Failed(why)) => Step::Finish(
                Vec::new(),
                Err(io_error("spawn firecracker", why)),
            ),
            (SourcePhase::Configure(_), Event::Refused(e)) => killed(MigrateError::Firecracker(e)),
            (SourcePhase::Connect, Event::Failed(why)) => Step::Finish(
                self.clear(),
                Err(io_error("connect guest vsock", why)),
            ),
            (SourcePhase::Handshake, Event::Failed(why)) => Step::Finish(
                self.clear(),
                Err(io_error("guest handshake", why)),
            ),
            (SourcePhase::Drain, Event::Failed(why)) => Step::Finish(
                self.clear(),
                Err(io_error("drain guest", why)),
            ),
            (SourcePhase::Drain, Event::Drained(DrainState::Busy)) => Step::Finish(
                self.clear(),
                Err(MigrateError::NotQuiescent),
            ),
            _ => {
                let action = self.action();
                Step::Perform(self, action)
            },
        }
    }
}

/// The end of a move that only the Firecracker process is left of.
fn killed(e: MigrateError) -> (step: Step<SourceRun, SourceTiming>)
    ensures
        step matches Step::Finish(closings, result) && steps::acts(closings@) == seq![
            steps::Act::Kill,
        ] && result == Err::<SourceTiming, MigrateError>(e),
{
    let mut closings: Vec<Closing> = Vec::new();
    closings.push(Closing::Kill);
    proof {
        assert(steps::acts(closings@) =~= seq![steps::Act::Kill]);
    }
    Step::Finish(closings, Err(e))
}

// ---------------------------------------------------------------------------
// The source: a VM that runs already
// ---------------------------------------------------------------------------

/// How the move of a running VM ended.
#[derive(Debug, PartialEq, Eq)]
pub enum MigrateOutcome {
    /// It was moved and is torn down here.
    Moved(SourceTiming),
    /// It stays, as it was: its guest was busy or out of reach.
    StoodDown(RunningVm),
}

/// How far the move of a running VM has come.
#[derive(Clone, Copy, Debug, PartialEq, Eq, Structural)]
pub enum RunningPhase {
    /// Its guest is being reached.
    Connect,
    /// The handshake is going on.
    Handshake,
    /// The guest is draining.
    Drain,
    /// The guest was busy and is told to go on.
    CancelDrain,
    /// The link to the guest is being closed.
    CloseLink,
    /// The path of its vsock socket is being written down, to travel with the snapshot.
    WriteVsock,
    /// Its network identity is being written down, to travel with the snapshot.
    WriteNet,
    /// The snapshot is being taken and sent.
    Freeze(SnapshotPhase),
}

/// The move of a running VM.
#[derive(Debug, PartialEq, Eq)]
pub struct RunningRun {
    /// The VM.
    pub vm: RunningVm,
    /// The target.
    pub addr: String,
    /// How far the move has come.
    pub phase: RunningPhase,
    /// When the parts of the snapshot began and ended.
    pub clock: Clock,
}

/// Moves a running VM to `addr`.
pub fn migrate_running(vm: RunningVm, addr: &str) -> (step: Step<RunningRun, MigrateOutcome>)
    ensures
        step matches Step::Perform(run, action) && run.vm == vm && run.addr@ == addr@
            && run.phase is Connect && run.is_action(action),
{
    let run = RunningRun {
        vm,
        addr: addr.to_owned(),
        phase: RunningPhase::Connect,
        clock: Clock::new(),
    };
    let action = run.action();
    Step::Perform(run, action)
}

impl RunningRun {
    /// The files that travel with the snapshot.
    pub open spec fn extra(&self) -> Seq<Seq<char>> {
        if self.vm.net is Some {
            seq!["vsock.txt"@, "net.json"@]
        } else {
            seq!["vsock.txt"@]
        }
    }

    /// Whether `action` is the one of the run's phase. A networked guest is reached over its
    /// network, which a restore leaves in working order; any other over vsock.
    pub open spec fn is_action(&self, action: Action) -> bool {
        let work = self.vm.work@;
        match self.phase {
            RunningPhase::Connect => match self.vm.net {
                Some(net) => action matches Action::ConnectTcp { addr, timeout } && addr@ == net.ip@
                    + ":"@ + text::decimal(GUEST_DRAIN_TCP_PORT as nat) && timeout@ == CONNECT_SECS
                    * 1_000_000_000,
                None => is_vsock_connect(self.vm.vsock_uds@, action),
            },
            RunningPhase::Handshake => action is Handshake,
            RunningPhase::Drain => is_drain(action),
            RunningPhase::CancelDrain => action is CancelDrain,
            RunningPhase::CloseLink => action is CloseLink,
            RunningPhase::WriteVsock => action matches Action::WriteText { path, text: t } && path@
                == paths::under(work, "vsock.txt"@) && t@ == self.vm.vsock_uds@,
            RunningPhase::WriteNet => action matches Action::WriteNet(path) && path@
                == paths::under(work, "net.json"@),
            RunningPhase::Freeze(p) => steps::is_snapshot_action(
                work,
                self.addr@,
                self.extra(),
                p,
                action,
            ),
        }
    }

    /// Where the move of a VM, networked or not, goes from `event`.
    pub open spec fn turning(phase: RunningPhase, networked: bool, event: Event) -> steps::Turning<
        RunningPhase,
    > {
        match (phase, event) {
            (RunningPhase::Freeze(p), e) => match snapshot_turning(p, e) {
                steps::Turning::Stay => steps::Turning::Stay,
                steps::Turning::Go(q) => steps::Turning::Go(RunningPhase::Freeze(q)),
                steps::Turning::End => steps::Turning::End,
            },
            (RunningPhase::Drain, Event::Drained(DrainState::Quiescent)) => steps::Turning::Go(
                RunningPhase::CloseLink,
            ),
            (RunningPhase::Drain, Event::Drained(DrainState::Busy)) => steps::Turning::Go(
                RunningPhase::CancelDrain,
            ),
            (RunningPhase::Drain, Event::Done) => steps::Turning::Stay,
            (RunningPhase::CloseLink, Event::Done) => steps::Turning::Go(RunningPhase::WriteVsock),
            (RunningPhase::CloseLink, _) => steps::Turning::Stay,
            (_, Event::Failed(_)) => steps::Turning::End,
            (RunningPhase::Connect, Event::Done) => steps::Turning::Go(RunningPhase::Handshake),
            (RunningPhase::Handshake, Event::Done) => steps::Turning::Go(RunningPhase::Drain),
            (RunningPhase::CancelDrain, Event::Done) => steps::Turning::End,
            (RunningPhase::WriteVsock, Event::Done) => if networked {
                steps::Turning::Go(RunningPhase::WriteNet)
            } else {
                steps::Turning::Go(RunningPhase::Freeze(SnapshotPhase::Pause))
            },
            (RunningPhase::WriteNet, Event::Done) => steps::Turning::Go(
                RunningPhase::Freeze(SnapshotPhase::Pause),
            ),
            (RunningPhase::WriteNet, Event::Malformed(_)) => steps::Turning::End,
            _ => steps::Turning::Stay,
        }
    }

    /// Whether the guest has not been found idle yet.
    pub open spec fn undecided(phase: RunningPhase) -> bool {
        phase is Connect || phase is Handshake || phase is Drain || phase is CancelDrain
    }

    /// How the move ends with `event`. Before the guest was found idle the VM is handed back as it
    /// is. Afterwards it is torn down, whether the move succeeded or not.
    pub open spec fn ends(
        &self,
        event: Event,
        closings: Seq<Closing>,
        result: Result<MigrateOutcome, MigrateError>,
    ) -> bool {
        let acts = steps::acts(closings);
        match (self.phase, event) {
            (RunningPhase::WriteVsock, Event::Failed(why)) => acts == self.vm.torn_down() && (
            result matches Err(e) && steps::is_io_error(e, "write vsock path"@, why@)),
            (RunningPhase::WriteNet, Event::Failed(why)) => acts == self.vm.torn_down() && (
            result matches Err(e) && steps::is_io_error(e, "write net identity"@, why@)),
            (RunningPhase::WriteNet, Event::Malformed(why)) => acts == self.vm.torn_down() && (
            result matches Err(e) && steps::is_io_error(e, "serialize net identity"@, why@)),
            (RunningPhase::Freeze(p), Event::Length(n)) => result matches Ok(
                MigrateOutcome::Moved(timing),
            ) && self.clock.says(n, timing) && acts == seq![counted(timing)] + self.vm.torn_down(),
            (RunningPhase::Freeze(p), _) => acts == seq![steps::Act::CountFailed]
                + self.vm.torn_down() && (result matches Err(e) && snapshot_ends(
                p,
                event,
                SnapshotEnd::Failed(e),
            )),
            _ => closings.len() == 0 && result == Ok::<MigrateOutcome, MigrateError>(
                MigrateOutcome::StoodDown(self.vm),
            ),
        }
    }

    /// The clock of the run once it is in `phase`, entered at `now`.
    pub open spec fn ticks(&self, phase: RunningPhase, now: Duration) -> Clock {
        match phase {
            RunningPhase::Freeze(p) => ticked(self.clock, p, now),
            _ => self.clock,
        }
    }

    /// Whether `step` is what follows `event` at `now`.
    pub open spec fn leads_to(
        &self,
        event: Event,
        now: Duration,
        step: Step<RunningRun, MigrateOutcome>,
    ) -> bool {
        match RunningRun::turning(self.phase, self.vm.net is Some, event) {
            steps::Turning::Stay => step matches Step::Perform(run, action) && run == *self
                && run.is_action(action),
            steps::Turning::Go(phase) => step matches Step::Perform(run, action) && {
                &&& run == (RunningRun { phase, clock: self.ticks(phase, now), ..*self })
                &&& run.is_action(action)
            },
            steps::Turning::End => step matches Step::Finish(closings, result) && self.ends(
                event,
                closings@,
                result,
            ),
        }
    }

    /// The action of the run's phase.
    fn action(&self) -> (action: Action)
        ensures
            self.is_action(action),
    {
        match self.phase {
            RunningPhase::Connect => match &self.vm.net {
                Some(net) => {
                    let mut addr = net.ip.as_str().to_owned();
                    addr.append(":");
                    addr.append(&decimal_of(GUEST_DRAIN_TCP_PORT as u64));
                    Action::ConnectTcp { addr, timeout: Duration::from_secs(CONNECT_SECS) }
                },
                None => Action::ConnectVsock {
                    uds: self.vm.vsock_uds.as_str().to_owned(),
                    port: GUEST_VSOCK_PORT,
                    timeout: Duration::from_secs(CONNECT_SECS),
                },
            },
            RunningPhase::Handshake => Action::Handshake,
            RunningPhase::Drain => Action::Drain { deadline: Duration::from_secs(DRAIN_SECS) },
            RunningPhase::CancelDrain => Action::CancelDrain,
            RunningPhase::CloseLink => Action::CloseLink,
            RunningPhase::WriteVsock => Action::WriteText {
                path: join(&self.vm.work, "vsock.txt"),
                text: self.vm.vsock_uds.as_str().to_owned(),
            },
            RunningPhase::WriteNet => Action::WriteNet(join(&self.vm.work, "net.json")),
            RunningPhase::Freeze(p) => {
                let mut extra: Vec<&'static str> = Vec::new();
                extra.push("vsock.txt");
                if self.vm.net.is_some() {
                    extra.push("net.json");
                }
                proof {
                    assert(text::literal_views(extra@) =~= self.extra());
                }
                snapshot_action(&self.vm.work, &self.addr, &extra, p)
            },
        }
    }

    /// The run in `phase`, entered at `now`, with its action.
    fn go(self, phase: RunningPhase, now: Duration) -> (step: Step<RunningRun, MigrateOutcome>)
        ensures
            step matches Step::Perform(run, action) && run == (RunningRun {
                phase,
                clock: self.ticks(phase, now),
                ..self
            }) && run.is_action(action),
    {
        let clock = match phase {
            RunningPhase::Freeze(p) => tick(self.clock, p, now),
            _ => self.clock,
        };
        let run = RunningRun { phase, clock, ..self };
        let action = run.action();
        Step::Perform(run, action)
    }

    /// The end of a move whose VM is torn down after `first`.
    fn over(self, first: Option<Closing>, result: Result<MigrateOutcome, MigrateError>) -> (step: Step<
        RunningRun,
        MigrateOutcome,
    >)
        ensures
            step matches Step::Finish(closings, r) && r == result && steps::acts(closings@)
                == first_act(first) + self.vm.torn_down(),
    {
        let mut closings: Vec<Closing> = Vec::new();
        let ghost acts = first_act(first);
        if let Some(c) = first {
            closings.push(c);
        }
        proof {
            assert(steps::acts(closings@) =~= acts);
        }
        Step::Finish(self.vm.teardown(closings), result)
    }

    /// What follows `event`, which came of the last action, at `now`.
    pub fn step(self, event: Event, now: Duration) -> (step: Step<RunningRun, MigrateOutcome>)
        ensures
            self.leads_to(event, now, step),
    {
        let ghost torn = self.vm.torn_down();
        proof {
            assert(Seq::<steps::Act>::empty() + torn =~= torn);
        }
        let phase = self.phase;
        let networked: bool = self.vm.net.is_some();
        match (phase, event) {
            (RunningPhase::Freeze(p), event) => match snapshot_next(p, event) {
                SnapshotNext::Stay => {
                    let action = self.action();
                    Step::Perform(self, action)
                },
                SnapshotNext::Go(q) => self.go(RunningPhase::Freeze(q), now),
                SnapshotNext::End(SnapshotEnd::Sent(n)) => {
                    let timing = self.clock.timing(n);
                    self.over(Some(count(&timing)), Ok(MigrateOutcome::Moved(timing)))
                },
                SnapshotNext::End(SnapshotEnd::Failed(e)) => self.over(
                    Some(Closing::CountFailed),
                    Err(e),
                ),
            },
            (RunningPhase::Connect, Event::Done) => self.go(RunningPhase::Handshake, now),
            (RunningPhase::Handshake, Event::Done) => self.go(RunningPhase::Drain, now),
            (RunningPhase::Drain, Event::Drained(DrainState::Quiescent)) => self.go(
                RunningPhase::CloseLink,
                now,
            ),
            (RunningPhase::Drain, Event::Drained(DrainState::Busy)) => self.go(
                RunningPhase::CancelDrain,
                now,
            ),
            (RunningPhase::CloseLink, Event::Done) => self.go(RunningPhase::WriteVsock, now),
            (RunningPhase::WriteVsock, Event::Done) => if networked {
                self.go(RunningPhase::WriteNet, now)
            } else {
                self.go(RunningPhase::Freeze(SnapshotPhase::Pause), now)
            },
            (RunningPhase::WriteNet, Event::Done) => self.go(
                RunningPhase::Freeze(SnapshotPhase::Pause),
                now,
            ),
            (RunningPhase::Connect, Event::Failed(_)) => stood_down(self.vm),
            (RunningPhase::Handshake, Event::Failed(_)) => stood_down(self.vm),
            (RunningPhase::Drain, Event::Failed(_)) => stood_down(self.vm),
            (RunningPhase::CancelDrain, Event::Done) => stood_down(self.vm),
            (RunningPhase::CancelDrain, Event::Failed(_)) => stood_down(self.vm),
            (RunningPhase::WriteVsock, Event::Failed(why)) => self.over(
                None,
                Err(io_error("write vsock path", why)),
            ),
            (RunningPhase::WriteNet, Event::Failed(why)) => self.over(
                None,
                Err(io_error("write net identity", why)),
            ),
            (RunningPhase::WriteNet, Event::Malformed(why)) => self.over(
                None,
                Err(io_error("serialize net identity", why)),
            ),
            _ => {
                let action = self.action();
                Step::Perform(self, action)
            },
        }
    }
}

/// What a first closing does, if there is one.
spec fn first_act(first: Option<Closing>) -> Seq<steps::Act> {
    match first {
        Some(c) => seq![c.act()],
        None => seq![],
    }
}

/// The end of a move that hands its VM back.
fn stood_down(vm: RunningVm) -> (step: Step<RunningRun, MigrateOutcome>)
    ensures
        step matches Step::Finish(closings, result) && closings@.len() == 0 && result == Ok::<
            MigrateOutcome,
            MigrateError,
        >(MigrateOutcome::StoodDown(vm)),
{
    Step::Finish(Vec::new(), Ok(MigrateOutcome::StoodDown(vm)))
}

// ---------------------------------------------------------------------------
// What every move keeps
// ---------------------------------------------------------------------------

/// The phase that a move of a booted VM is in after `events`, unless it has ended.
pub open spec fn source_after(events: Seq<Event>) -> Option<SourcePhase>
    decreases events.len(),
{
    if events.len() == 0 {
        Some(SourcePhase::CreateDir)
    } else {
        match source_after(events.drop_last()) {
            Some(phase) => match SourceRun::turning(phase, events.last()) {
                steps::Turning::Stay => Some(phase),
                steps::Turning::Go(p) => Some(p),
                steps::Turning::End => None,
            },
            None => None,
        }
    }
}

/// The phase that a move of a running VM is in after `events`, unless it has ended.
pub open spec fn running_after(networked: bool, events: Seq<Event>) -> Option<RunningPhase>
    decreases events.len(),
{
    if events.len() == 0 {
        Some(RunningPhase::Connect)
    } else {
        match running_after(networked, events.drop_last()) {
            Some(phase) => match RunningRun::turning(phase, networked, events.last()) {
                steps::Turning::Stay => Some(phase),
                steps::Turning::Go(p) => Some(p),
                steps::Turning::End => None,
            },
            None => None,
        }
    }
}

/// Whether the guest acknowledged among `events` that it was idle.
pub open spec fn found_idle(events: Seq<Event>) -> bool {
    exists|i: int|
        0 <= i < events.len() && #[trigger] events[i] == Event::Drained(DrainState::Quiescent)
}

/// No guest is paused or snapshotted before it has said that it is idle.
pub proof fn law_source_snapshots_only_an_idle_guest(events: Seq<Event>)
    requires
        source_after(events) matches Some(phase) && (phase is CloseLink || phase is Freeze),
    ensures
        found_idle(events),
    decreases events.len(),
{
    if events.len() > 0 {
        let before = events.drop_last();
        let phase = source_after(before)->0;
        if phase is CloseLink || phase is Freeze {
            law_source_snapshots_only_an_idle_guest(before);
            let i = choose|i: int|
                0 <= i < before.len() && #[trigger] before[i] == Event::Drained(
                    DrainState::Quiescent,
                );
            assert(events[i] == Event::Drained(DrainState::Quiescent));
        } else {
            assert(events[events.len() - 1] == Event::Drained(DrainState::Quiescent));
        }
    }
}

/// No running guest is paused or snapshotted before it has said that it is idle, and nothing that
/// travels with a snapshot is written before.
pub proof fn law_running_snapshots_only_an_idle_guest(networked: bool, events: Seq<Event>)
    requires
        running_after(networked, events) matches Some(phase) && !RunningRun::undecided(phase),
    ensures
        found_idle(events),
    decreases events.len(),
{
    if events.len() > 0 {
        let before = events.drop_last();
        let phase = running_after(networked, before)->0;
        if !RunningRun::undecided(phase) {
            law_running_snapshots_only_an_idle_guest(networked, before);
            let i = choose|i: int|
                0 <= i < before.len() && #[trigger] before[i] == Event::Drained(
                    DrainState::Quiescent,
                );
            assert(events[i] == Event::Drained(DrainState::Quiescent));
        } else {
            assert(events[events.len() - 1] == Event::Drained(DrainState::Quiescent));
        }
    }
}

/// A move that ends before the guest has said that it is idle hands the VM back as it was: nothing
/// of it is cleared away, and it is no error.
pub proof fn law_vm_survives_until_idle(
    run: RunningRun,
    event: Event,
    closings: Seq<Closing>,
    result: Result<MigrateOutcome, MigrateError>,
)
    requires
        RunningRun::undecided(run.phase),
        RunningRun::turning(run.phase, run.vm.net is Some, event) is End,
        run.ends(event, closings, result),
    ensures
        closings.len() == 0,
        result == Ok::<MigrateOutcome, MigrateError>(MigrateOutcome::StoodDown(run.vm)),
{
}

/// A move that ends later leaves nothing of the VM on its source: it was torn down, and it is handed
/// back to nobody. So a VM that runs on at the target never runs on at the source too.
pub proof fn law_moved_vm_leaves_its_source(
    run: RunningRun,
    event: Event,
    closings: Seq<Closing>,
    result: Result<MigrateOutcome, MigrateError>,
)
    requires
        !RunningRun::undecided(run.phase),
        RunningRun::turning(run.phase, run.vm.net is Some, event) is End,
        run.ends(event, closings, result),
    ensures
        steps::acts(closings).skip(closings.len() - run.vm.torn_down().len())
            == run.vm.torn_down(),
        !(result matches Ok(MigrateOutcome::StoodDown(_))),
{
    let acts = steps::acts(closings);
    let torn = run.vm.torn_down();
    assert(acts.skip(acts.len() - torn.len()) =~= torn);
}

/// A busy guest always wins: its answer leads to no snapshot, and a running VM goes on here.
pub proof fn law_busy_guest_wins(networked: bool, events: Seq<Event>)
    requires
        running_after(networked, events) == Some(RunningPhase::Drain),
    ensures
        running_after(networked, events.push(Event::Drained(DrainState::Busy))) == Some(
            RunningPhase::CancelDrain,
        ),
        forall|event: Event|
            #[trigger] RunningRun::turning(RunningPhase::CancelDrain, networked, event) is Stay
                || RunningRun::turning(RunningPhase::CancelDrain, networked, event) is End,
{
    let busy = events.push(Event::Drained(DrainState::Busy));
    assert(busy.drop_last() =~= events);
}

// ---------------------------------------------------------------------------
// The target
// ---------------------------------------------------------------------------

/// How far a restore has come.
#[derive(Clone, Copy, Debug, PartialEq, Eq, Structural)]
pub enum RestorePhase {
    /// The VM's directory is being created.
    CreateDir,
    /// The snapshot is being received.
    Receive,
    /// The VM's network identity is being read.
    ReadNet,
    /// Its tap is being created: Firecracker binds it again when it loads the snapshot.
    CreateTap,
    /// The page server's socket is being bound.
    BindPages,
    /// The page server is being started.
    ServePages,
    /// The Firecracker process is being started.
    Launch,
    /// The snapshot is being loaded, and the VM runs on.
    Load,
    /// The guest is left alone for a moment.
    Settle,
    /// The VM's new place is being announced.
    Announce,
    /// The path of its vsock socket is being read.
    ReadVsock,
    /// Its memory is being measured.
    Measure,
}

/// The restore of a VM.
#[derive(Debug, PartialEq, Eq)]
pub struct RestoreRun {
    /// The VM, under the id that it has here.
    pub id: VmId,
    /// The Firecracker binary.
    pub fc_bin: String,
    /// The VM's directory.
    pub work: String,
    /// Whether the VM is kept once it runs.
    pub keep: bool,
    /// Its network identity, once it is known to have one.
    pub net: Option<NetId>,
    /// Its vsock socket, once that is known.
    pub vsock_uds: String,
    /// How far the restore has come.
    pub phase: RestorePhase,
}

/// How many files a snapshot has at least.
pub const FEWEST_FILES: usize = 2;

/// How many files a snapshot has at most.
pub const MOST_FILES: usize = 4;

/// The bytes of a MiB.
pub const MIB: u64 = 1048576;

/// The size in MiB of a memory of `length` bytes, modulo 2^32.
pub open spec fn mib_of(length: Option<u64>) -> u32 {
    match length {
        Some(n) => ((n / MIB) as int % 0x1_0000_0000) as u32,
        None => 0,
    }
}

/// The size in MiB of a memory of `length` bytes.
fn mem_mib(length: Option<u64>) -> (mib: u32)
    ensures
        mib == mib_of(length),
{
    match length {
        Some(n) => ((n / MIB) % 0x1_0000_0000) as u32,
        None => 0,
    }
}

/// Whether a restore has begun in a directory of this process.
pub open spec fn restore_begins(
    step: Step<RestoreRun, Option<RunningVm>>,
    fc_bin: Seq<char>,
    temp: Seq<char>,
    pid: u32,
    seq: u64,
    keep: bool,
) -> bool {
    step matches Step::Perform(run, action) && {
        &&& ids::is_random_uuid(run.id.bits)
        &&& run.fc_bin@ == fc_bin
        &&& run.work@ == paths::under(temp, steps::run_name("sleepwalk-tgt-"@, pid, seq, ""@))
        &&& run.keep == keep
        &&& run.net is None
        &&& run.vsock_uds@ == ""@
        &&& run.phase is CreateDir
        &&& run.is_action(action)
    }
}

/// The beginning of a restore.
fn receive_and_restore(fc_bin: &str, temp: &str, pid: u32, seq: u64, keep: bool) -> (step: Step<
    RestoreRun,
    Option<RunningVm>,
>)
    ensures
        restore_begins(step, fc_bin@, temp@, pid, seq, keep),
{
    let run = RestoreRun {
        id: VmId::new(),
        fc_bin: fc_bin.to_owned(),
        work: run_path(temp, "sleepwalk-tgt-", pid, seq, ""),
        keep,
        net: None,
        vsock_uds: "".to_owned(),
        phase: RestorePhase::CreateDir,
    };
    let action = run.action();
    Step::Perform(run, action)
}

/// Receives one VM, lets it run on, and tears it down: what shows that a VM can be moved.
pub fn restore_target(fc_bin: &str, temp: &str, pid: u32, seq: u64) -> (step: Step<
    RestoreRun,
    Option<RunningVm>,
>)
    ensures
        restore_begins(step, fc_bin@, temp@, pid, seq, false),
{
    receive_and_restore(fc_bin, temp, pid, seq, false)
}

/// Receives one VM and lets it run on, to be registered.
pub fn restore_register(fc_bin: &str, temp: &str, pid: u32, seq: u64) -> (step: Step<
    RestoreRun,
    Option<RunningVm>,
>)
    ensures
        restore_begins(step, fc_bin@, temp@, pid, seq, true),
{
    receive_and_restore(fc_bin, temp, pid, seq, true)
}

impl RestoreRun {
    /// Whether the run is in order: a tap is created only for a VM with a network.
    pub open spec fn wf(&self) -> bool {
        self.phase is CreateTap ==> self.net is Some
    }

    /// Whether `action` is the one of the run's phase.
    pub open spec fn is_action(&self, action: Action) -> bool {
        let work = self.work@;
        match self.phase {
            RestorePhase::CreateDir => action matches Action::CreateDir(dir) && dir@ == work,
            RestorePhase::Receive => action matches Action::Receive { dir } && dir@ == work,
            RestorePhase::ReadNet => action matches Action::ReadNet(path) && path@ == paths::under(
                work,
                "net.json"@,
            ),
            RestorePhase::CreateTap => action matches Action::CreateTap(tap) && (
            self.net matches Some(net) && tap@ == net.tap@),
            RestorePhase::BindPages => action matches Action::BindPages(path) && path@
                == paths::under(work, "uffd.sock"@),
            RestorePhase::ServePages => action matches Action::ServePages(path) && path@
                == paths::under(work, "mem.snap"@),
            RestorePhase::Launch => steps::is_launch(self.fc_bin@, work, action),
            RestorePhase::Load => action matches Action::Control(ApiOp::LoadSnapshot(source))
                && source.state_file@ == paths::under(work, "state.snap"@) && (
            source.backend matches MemBackend::Uffd { socket } && socket@ == paths::under(
                work,
                "uffd.sock"@,
            )) && source.resume,
            RestorePhase::Settle => action matches Action::Sleep(span) && span@ == SETTLE_MS
                * 1_000_000,
            RestorePhase::Announce => action is Announce,
            RestorePhase::ReadVsock => action matches Action::ReadText(path) && path@
                == paths::under(work, "vsock.txt"@),
            RestorePhase::Measure => action matches Action::Measure(path) && path@ == paths::under(
                work,
                "mem.snap"@,
            ),
        }
    }

    /// Where the restore of a VM, known to be networked or not, goes from `event`.
    pub open spec fn turning(phase: RestorePhase, networked: bool, event: Event) -> steps::Turning<
        RestorePhase,
    > {
        match (phase, event) {
            (RestorePhase::CreateDir, Event::Done) => steps::Turning::Go(RestorePhase::Receive),
            (RestorePhase::CreateDir, Event::Failed(_)) => steps::Turning::End,
            (RestorePhase::Receive, Event::Received(n)) => if FEWEST_FILES <= n <= MOST_FILES {
                steps::Turning::Go(RestorePhase::ReadNet)
            } else {
                steps::Turning::End
            },
            (RestorePhase::Receive, Event::Broken(_)) => steps::Turning::End,
            (RestorePhase::ReadNet, Event::Missing) => steps::Turning::Go(RestorePhase::BindPages),
            (RestorePhase::ReadNet, Event::Net(_)) => steps::Turning::Go(RestorePhase::CreateTap),
            (RestorePhase::ReadNet, Event::Failed(_)) => steps::Turning::End,
            (RestorePhase::ReadNet, Event::Malformed(_)) => steps::Turning::End,
            (RestorePhase::CreateTap, Event::Done) => steps::Turning::Go(RestorePhase::BindPages),
            (RestorePhase::CreateTap, Event::Failed(_)) => steps::Turning::End,
            (RestorePhase::BindPages, Event::Done) => steps::Turning::Go(RestorePhase::ServePages),
            (RestorePhase::BindPages, Event::Failed(_)) => steps::Turning::End,
            (RestorePhase::ServePages, Event::Done) => steps::Turning::Go(RestorePhase::Launch),
            (RestorePhase::Launch, Event::Done) => steps::Turning::Go(RestorePhase::Load),
            (RestorePhase::Launch, Event::Failed(_)) => steps::Turning::End,
            (RestorePhase::Load, Event::Done) => steps::Turning::Go(RestorePhase::Settle),
            (RestorePhase::Load, Event::Refused(_)) => steps::Turning::End,
            (RestorePhase::Settle, Event::Done) => if networked {
                steps::Turning::Go(RestorePhase::Announce)
            } else {
                steps::Turning::Go(RestorePhase::ReadVsock)
            },
            (RestorePhase::Announce, Event::Done) => steps::Turning::Go(RestorePhase::ReadVsock),
            (RestorePhase::Announce, Event::Failed(_)) => steps::Turning::Go(
                RestorePhase::ReadVsock,
            ),
            (RestorePhase::ReadVsock, Event::Text(_)) => steps::Turning::Go(RestorePhase::Measure),
            (RestorePhase::ReadVsock, Event::Missing) => steps::Turning::Go(RestorePhase::Measure),
            (RestorePhase::ReadVsock, Event::Failed(_)) => steps::Turning::Go(
                RestorePhase::Measure,
            ),
            (RestorePhase::Measure, Event::Length(_)) => steps::Turning::End,
            _ => steps::Turning::Stay,
        }
    }

    /// What is known of the VM after `event`.
    pub open spec fn learns(&self, event: Event, run: RestoreRun) -> bool {
        &&& run.id == self.id
        &&& run.fc_bin == self.fc_bin
        &&& run.work == self.work
        &&& run.keep == self.keep
        &&& run.net == match (self.phase, event) {
            (RestorePhase::ReadNet, Event::Net(net)) => Some(net),
            _ => self.net,
        }
        &&& match (self.phase, event) {
            (RestorePhase::ReadVsock, Event::Text(t)) => run.vsock_uds@ == text::trim(t@),
            _ => run.vsock_uds == self.vsock_uds,
        }
    }

    /// What is cleared away where the snapshot could not be loaded.
    pub open spec fn cleared(&self) -> Seq<steps::Act> {
        seq![steps::Act::Kill, steps::Act::StopPages] + (match self.net {
            Some(net) => seq![steps::Act::DestroyTap(net.tap@)],
            None => seq![],
        }) + seq![steps::Act::RemoveDir(self.work@)]
    }

    /// Whether `vm` is the VM that has been restored, with a memory of `length` bytes.
    pub open spec fn restored(&self, length: Option<u64>, vm: RunningVm) -> bool {
        &&& vm.id == self.id
        &&& vm.api_sock@ == paths::under(self.work@, "fc.sock"@)
        &&& vm.work == self.work
        &&& vm.vsock_uds == self.vsock_uds
        &&& vm.mib == mib_of(length)
        &&& vm.served
        &&& vm.net == self.net
    }

    /// How the restore ends with `event`.
    pub open spec fn ends(
        &self,
        event: Event,
        closings: Seq<Closing>,
        result: Result<Option<RunningVm>, MigrateError>,
    ) -> bool {
        let acts = steps::acts(closings);
        match (self.phase, event) {
            (RestorePhase::CreateDir, Event::Failed(why)) => closings.len() == 0 && (
            result matches Err(e) && steps::is_io_error(e, "create work dir"@, why@)),
            (RestorePhase::Receive, Event::Broken(why)) => closings.len() == 0 && result == Err::<
                Option<RunningVm>,
                MigrateError,
            >(MigrateError::Transfer(why)),
            (RestorePhase::Receive, Event::Received(n)) => closings.len() == 0 && (
            result matches Err(MigrateError::Snapshot(why)) && why@ == "expected 2..4 files, got "@
                + text::decimal(n as nat)),
            (RestorePhase::ReadNet, Event::Failed(why)) => closings.len() == 0 && (
            result matches Err(e) && steps::is_io_error(e, "read net identity"@, why@)),
            (RestorePhase::ReadNet, Event::Malformed(why)) => closings.len() == 0 && (
            result matches Err(e) && steps::is_io_error(e, "parse net identity"@, why@)),
            (RestorePhase::CreateTap, Event::Failed(why)) => acts == seq![
                steps::Act::RemoveDir(self.work@),
            ] && (result matches Err(e) && steps::is_io_error(e, "re-plumb vm tap"@, why@)),
            (RestorePhase::BindPages, Event::Failed(why)) => closings.len() == 0 && (
            result matches Err(e) && steps::is_io_error(e, "bind uffd socket"@, why@)),
            (RestorePhase::Launch, Event::Failed(why)) => closings.len() == 0 && (
            result matches Err(e) && steps::is_io_error(e, "spawn firecracker"@, why@)),
            (RestorePhase::Load, Event::Refused(why)) => acts == self.cleared() && result == Err::<
                Option<RunningVm>,
                MigrateError,
            >(MigrateError::Firecracker(why)),
            (RestorePhase::Measure, Event::Length(n)) => if self.keep {
                closings.len() == 0 && (result matches Ok(Some(vm)) && self.restored(n, vm))
            } else {
                result == Ok::<Option<RunningVm>, MigrateError>(None) && acts
                    == self.cleared().push(steps::Act::RemoveFile(self.vsock_uds@))
            },
            _ => false,
        }
    }

    /// Whether `step` is what follows `event`.
    pub open spec fn leads_to(&self, event: Event, step: Step<RestoreRun, Option<RunningVm>>) -> bool {
        match RestoreRun::turning(self.phase, self.net is Some, event) {
            steps::Turning::Stay => step matches Step::Perform(run, action) && run == *self
                && run.is_action(action),
            steps::Turning::Go(phase) => step matches Step::Perform(run, action) && {
                &&& self.learns(event, run)
                &&& run.phase == phase
                &&& run.wf()
                &&& run.is_action(action)
            },
            steps::Turning::End => step matches Step::Finish(closings, result) && self.ends(
                event,
                closings@,
                result,
            ),
        }
    }

    /// The action of the run's phase.
    fn action(&self) -> (action: Action)
        requires
            self.wf(),
        ensures
            self.is_action(action),
    {
        match self.phase {
            RestorePhase::CreateDir => Action::CreateDir(self.work.as_str().to_owned()),
            RestorePhase::Receive => Action::Receive { dir: self.work.as_str().to_owned() },
            RestorePhase::ReadNet => Action::ReadNet(join(&self.work, "net.json")),
            RestorePhase::CreateTap => match &self.net {
                Some(net) => Action::CreateTap(net.tap.as_str().to_owned()),
                None => Action::CreateTap("".to_owned()),
            },
            RestorePhase::BindPages => Action::BindPages(join(&self.work, "uffd.sock")),
            RestorePhase::ServePages => Action::ServePages(join(&self.work, "mem.snap")),
            RestorePhase::Launch => launch(&self.fc_bin, &self.work),
            RestorePhase::Load => Action::Control(
                ApiOp::LoadSnapshot(
                    SnapshotSource {
                        state_file: join(&self.work, "state.snap"),
                        backend: MemBackend::Uffd { socket: join(&self.work, "uffd.sock") },
                        resume: true,
                    },
                ),
            ),
            RestorePhase::Settle => Action::Sleep(Duration::from_millis(SETTLE_MS)),
            RestorePhase::Announce => Action::Announce,
            RestorePhase::ReadVsock => Action::ReadText(join(&self.work, "vsock.txt")),
            RestorePhase::Measure => Action::Measure(join(&self.work, "mem.snap")),
        }
    }

    /// The run in `phase`, with its action.
    fn go(self, phase: RestorePhase) -> (step: Step<RestoreRun, Option<RunningVm>>)
        requires
            phase is CreateTap ==> self.net is Some,
        ensures
            step matches Step::Perform(run, action) && run == (RestoreRun { phase, ..self })
                && run.is_action(action),
    {
        let run = RestoreRun { phase, ..self };
        let action = run.action();
        Step::Perform(run, action)
    }

    /// What is cleared away where the snapshot could not be loaded.
    fn clear(self) -> (closings: Vec<Closing>)
        ensures
            steps::acts(closings@) == self.cleared(),
    {
        let ghost run = self;
        let mut closings: Vec<Closing> = Vec::new();
        closings.push(Closing::Kill);
        closings.push(Closing::StopPages);
        if let Some(net) = self.net {
            closings.push(Closing::DestroyTap(net.tap));
        }
        closings.push(Closing::RemoveDir(self.work));
        proof {
            assert(steps::acts(closings@) =~= run.cleared());
        }
        closings
    }

    /// The VM, which runs here now.
    fn up(self, length: Option<u64>) -> (step: Step<RestoreRun, Option<RunningVm>>)
        requires
            self.phase is Measure,
        ensures
            step matches Step::Finish(closings, result) && self.ends(
                Event::Length(length),
                closings@,
                result,
            ),
    {
        let ghost run = self;
        let keep: bool = self.keep;
        let vm = RunningVm {
            id: self.id,
            api_sock: join(&self.work, "fc.sock"),
            work: self.work,
            vsock_uds: self.vsock_uds,
            mib: mem_mib(length),
            served: true,
            net: self.net,
        };
        if keep {
            return Step::Finish(Vec::new(), Ok(Some(vm)));
        }
        let closings = vm.teardown(Vec::new());
        proof {
            assert(steps::acts(closings@) =~= run.cleared().push(
                steps::Act::RemoveFile(run.vsock_uds@),
            ));
        }
        Step::Finish(closings, Ok(None))
    }

    /// What follows `event`, which came of the last action.
    pub fn step(self, event: Event) -> (step: Step<RestoreRun, Option<RunningVm>>)
        requires
            self.wf(),
        ensures
            self.leads_to(event, step),
    {
        let phase = self.phase;
        let networked: bool = self.net.is_some();
        match (phase, event) {
            (RestorePhase::CreateDir, Event::Done) => self.go(RestorePhase::Receive),
            (RestorePhase::Receive, Event::Received(n)) => {
                if n < FEWEST_FILES || n > MOST_FILES {
                    let mut why = "expected 2..4 files, got ".to_owned();
                    why.append(&decimal_of(n as u64));
                    return Step::Finish(Vec::new(), Err(MigrateError::Snapshot(why)));
                }
                self.go(RestorePhase::ReadNet)
            },
            (RestorePhase::ReadNet, Event::Missing) => self.go(RestorePhase::BindPages),
            (RestorePhase::ReadNet, Event::Net(net)) => {
                let run = RestoreRun { net: Some(net), ..self };
                run.go(RestorePhase::CreateTap)
            },
            (RestorePhase::CreateTap, Event::Done) => self.go(RestorePhase::BindPages),
            (RestorePhase::BindPages, Event::Done) => self.go(RestorePhase::ServePages),
            (RestorePhase::ServePages, Event::Done) => self.go(RestorePhase::Launch),
            (RestorePhase::Launch, Event::Done) => self.go(RestorePhase::Load),
            (RestorePhase::Load, Event::Done) => self.go(RestorePhase::Settle),
            (RestorePhase::Settle, Event::Done) => if networked {
                self.go(RestorePhase::Announce)
            } else {
                self.go(RestorePhase::ReadVsock)
            },
            (RestorePhase::Announce, Event::Done) => self.go(RestorePhase::ReadVsock),
            (RestorePhase::Announce, Event::Failed(_)) => self.go(RestorePhase::ReadVsock),
            (RestorePhase::ReadVsock, Event::Text(t)) => {
                let run = RestoreRun { vsock_uds: trimmed(&t), ..self };
                run.go(RestorePhase::Measure)
            },
            (RestorePhase::ReadVsock, Event::Missing) => self.go(RestorePhase::Measure),
            (RestorePhase::ReadVsock, Event::Failed(_)) => self.go(RestorePhase::Measure),
            (RestorePhase::Measure, Event::Length(n)) => self.up(n),
            (RestorePhase::CreateDir, Event::Failed(why)) => Step::Finish(
                Vec::new(),
                Err(io_error("create work dir", why)),
            ),
            (RestorePhase::Receive, Event::Broken(e)) => Step::Finish(
                Vec::new(),
                Err(MigrateError::Transfer(e)),
            ),
            (RestorePhase::ReadNet, Event::Failed(why)) => Step::Finish(
                Vec::new(),
                Err(io_error("read net identity", why)),
            ),
            (RestorePhase::ReadNet, Event::Malformed(why)) => Step::Finish(
                Vec::new(),
                Err(io_error("parse net identity", why)),
            ),
            (RestorePhase::CreateTap, Event::Failed(why)) => {
                let ghost run = self;
                let mut closings: Vec<Closing> = Vec::new();
                closings.push(Closing::RemoveDir(self.work));
                proof {
                    assert(steps::acts(closings@) =~= seq![steps::Act::RemoveDir(run.work@)]);
                }
                Step::Finish(closings, Err(io_error("re-plumb vm tap", why)))
            },
            (RestorePhase::BindPages, Event::Failed(why)) => Step::Finish(
                Vec::new(),
                Err(io_error("bind uffd socket", why)),
            ),
            (RestorePhase::Launch, Event::Failed(why)) => Step::Finish(
                Vec::new(),
                Err(io_error("spawn firecracker", why)),
            ),
            (RestorePhase::Load, Event::Refused(e)) => Step::Finish(
                self.clear(),
                Err(MigrateError::Firecracker(e)),
            ),
            _ => {
                let action = self.action();
                Step::Perform(self, action)
            },
        }
    }
}

/// How far a restore has come, as a number.
pub open spec fn restore_rank(phase: RestorePhase) -> int {
    match phase {
        RestorePhase::CreateDir => 0,
        RestorePhase::Receive => 1,
        RestorePhase::ReadNet => 2,
        RestorePhase::CreateTap => 3,
        RestorePhase::BindPages => 4,
        RestorePhase::ServePages => 5,
        RestorePhase::Launch => 6,
        RestorePhase::Load => 7,
        RestorePhase::Settle => 8,
        RestorePhase::Announce => 9,
        RestorePhase::ReadVsock => 10,
        RestorePhase::Measure => 11,
    }
}

/// A restore only goes forward. So the tap exists and the page server serves before the snapshot is
/// loaded, and the VM is announced only once it has been.
pub proof fn law_restore_goes_forward(phase: RestorePhase, networked: bool, event: Event)
    ensures
        RestoreRun::turning(phase, networked, event) matches steps::Turning::Go(next)
            ==> restore_rank(phase) < restore_rank(next),
        RestoreRun::turning(phase, networked, event) == steps::Turning::Go(RestorePhase::Load)
            ==> phase is Launch,
        RestoreRun::turning(phase, networked, event) == steps::Turning::Go(RestorePhase::Launch)
            ==> phase is ServePages,
        RestoreRun::turning(phase, networked, event) == steps::Turning::Go(RestorePhase::Announce)
            ==> networked && phase is Settle,
{
}

/// A snapshot that cannot be loaded leaves nothing running: the process is killed, the page server
/// is stopped after it, and the tap and the directory go.
pub proof fn law_failed_load_leaves_nothing(
    run: RestoreRun,
    event: Event,
    closings: Seq<Closing>,
    result: Result<Option<RunningVm>, MigrateError>,
)
    requires
        run.phase is Load,
        RestoreRun::turning(run.phase, run.net is Some, event) is End,
        run.ends(event, closings, result),
    ensures
        result is Err,
        steps::acts(closings)[0] is Kill,
        steps::acts(closings)[1] is StopPages,
        run.net matches Some(net) ==> steps::acts(closings).contains(
            steps::Act::DestroyTap(net.tap@),
        ),
        steps::acts(closings).last() == steps::Act::RemoveDir(run.work@),
{
    let acts = run.cleared();
    if run.net is Some {
        assert(acts[2] == steps::Act::DestroyTap(run.net->0.tap@));
    }
}

/// A networked VM keeps its identity when it moves: what the target reads is what the VM has once it
/// runs there.
pub proof fn law_identity_travels(run: RestoreRun, event: Event, after: RestoreRun, vm: RunningVm)
    requires
        run.learns(event, after),
    ensures
        run.phase is ReadNet ==> (event matches Event::Net(net) ==> after.net == Some(net)),
        !(run.phase is ReadNet) ==> after.net == run.net,
        forall|length: Option<u64>| #[trigger] after.restored(length, vm) ==> vm.net == after.net,
{
}

// ---------------------------------------------------------------------------
// Source and target agree
// ---------------------------------------------------------------------------

/// The file of the name `name` among those sent, as it lies on the source.
pub open spec fn sent_as(files: Seq<transfer::OutboundFile>, name: Seq<char>, path: Seq<char>) -> bool {
    exists|i: int|
        0 <= i < files.len() && (#[trigger] files[i]).name@ == name && files[i].path@ == path
}

/// Source and target agree on the files of a snapshot, whatever the two directories are. The file
/// that the source writes the guest's memory to is measured there, and is sent under the name that
/// the target serves pages from and measures; the file that the source writes the state to is sent
/// under the name that the target loads as its state. The two are not one file, on either side.
pub proof fn law_source_and_target_agree_on_files(
    work: Seq<char>,
    addr: Seq<char>,
    extra: Seq<Seq<char>>,
    written: Action,
    sent: Action,
    measured: Action,
    receiving: RestoreRun,
    serving: RestoreRun,
    loading: RestoreRun,
    measuring: RestoreRun,
    received: Action,
    served: Action,
    loaded: Action,
    found: Action,
)
    requires
        steps::is_snapshot_action(work, addr, extra, SnapshotPhase::Write, written),
        steps::is_snapshot_action(work, addr, extra, SnapshotPhase::Send, sent),
        steps::is_snapshot_action(work, addr, extra, SnapshotPhase::Measure, measured),
        receiving.phase is Receive,
        serving.phase is ServePages,
        loading.phase is Load,
        measuring.phase is Measure,
        serving.work@ == receiving.work@,
        loading.work@ == receiving.work@,
        measuring.work@ == receiving.work@,
        receiving.is_action(received),
        serving.is_action(served),
        loading.is_action(loaded),
        measuring.is_action(found),
    ensures
        received matches Action::Receive { dir } && {
            &&& dir@ == receiving.work@
            &&& written matches Action::Control(ApiOp::CreateSnapshot(target))
            &&& measured matches Action::Measure(length_of)
            &&& sent matches Action::Send { files, .. }
            &&& served matches Action::ServePages(memory)
            &&& loaded matches Action::Control(ApiOp::LoadSnapshot(source))
            &&& found matches Action::Measure(restored_length_of)
            &&& length_of@ == target.mem_file@
            &&& restored_length_of@ == memory@
            &&& exists|name: Seq<char>| #[trigger]
                paths::under(dir@, name) == memory@ && sent_as(files@, name, target.mem_file@)
            &&& exists|name: Seq<char>| #[trigger]
                paths::under(dir@, name) == source.state_file@ && sent_as(
                    files@,
                    name,
                    target.state_file@,
                )
            &&& forall|name: Seq<char>| #[trigger]
                paths::under(dir@, name) == memory@ && extra.len() == 0 ==> sent_as(
                    files@,
                    name,
                    target.mem_file@,
                ) && !sent_as(files@, name, target.state_file@)
            &&& memory@ != source.state_file@
            &&& target.mem_file@ != target.state_file@
            &&& source.resume
        },
{
    steps::law_snapshot_is_sent_whole(work, addr, extra, written, sent, measured);
    let dir = receiving.work@;
    let files = sent->files@;
    let target = written->Control_0->CreateSnapshot_0;
    let models = transfer::file_models(files);
    let whole = steps::sent_files(work, extra);
    assert(models[0] == files[0].model() && models[1] == files[1].model());
    assert(whole[0].0 == "mem.snap"@ && whole[1].0 == "state.snap"@);
    assert(files[0].name@ == "mem.snap"@ && files[0].path@ == target.mem_file@);
    assert(files[1].name@ == "state.snap"@ && files[1].path@ == target.state_file@);
    assert(sent_as(files, "mem.snap"@, target.mem_file@));
    assert(sent_as(files, "state.snap"@, target.state_file@));
    assert(paths::under(dir, "mem.snap"@) == served->ServePages_0@);
    reveal_strlit("mem.snap");
    reveal_strlit("state.snap");
    assert("mem.snap"@.len() != "state.snap"@.len());
    if paths::under(dir, "mem.snap"@) == paths::under(dir, "state.snap"@) {
        paths::law_under_is_injective(dir, "mem.snap"@, "state.snap"@);
    }
    if paths::under(work, "mem.snap"@) == paths::under(work, "state.snap"@) {
        paths::law_under_is_injective(work, "mem.snap"@, "state.snap"@);
    }
    assert forall|name: Seq<char>| #[trigger]
        paths::under(dir, name) == served->ServePages_0@ && extra.len() == 0 implies sent_as(
        files,
        name,
        target.mem_file@,
    ) && !sent_as(files, name, target.state_file@) by {
        paths::law_under_is_injective(dir, name, "mem.snap"@);
    }
}

/// What travels with a running VM's snapshot arrives: the file that its vsock path is written to, and
/// the one that its network identity is written to where it has one, lie in its directory, are sent
/// under the names that the target reads them by, and are neither the memory nor the state.
pub proof fn law_companions_travel(
    writing: RunningRun,
    writing_net: RunningRun,
    sending: RunningRun,
    wrote: Action,
    wrote_net: Action,
    sent: Action,
    reading: RestoreRun,
    reading_net: RestoreRun,
    read: Action,
    read_net: Action,
)
    requires
        writing.phase is WriteVsock,
        writing_net.phase is WriteNet,
        sending.phase == RunningPhase::Freeze(SnapshotPhase::Send),
        writing.vm == sending.vm,
        writing_net.vm == sending.vm,
        writing.is_action(wrote),
        writing_net.is_action(wrote_net),
        sending.is_action(sent),
        reading.phase is ReadVsock,
        reading_net.phase is ReadNet,
        reading.work@ == reading_net.work@,
        reading.is_action(read),
        reading_net.is_action(read_net),
    ensures
        sent matches Action::Send { addr, files } && {
            &&& addr@ == sending.addr@
            &&& wrote matches Action::WriteText { path, text: t }
            &&& t@ == sending.vm.vsock_uds@
            &&& read matches Action::ReadText(from)
            &&& exists|name: Seq<char>| #[trigger]
                paths::under(reading.work@, name) == from@ && sent_as(files@, name, path@)
            &&& wrote_net matches Action::WriteNet(net_path)
            &&& read_net matches Action::ReadNet(net_from)
            &&& sending.vm.net is Some ==> exists|name: Seq<char>| #[trigger]
                paths::under(reading.work@, name) == net_from@ && sent_as(files@, name, net_path@)
            &&& net_path@ != path@
            &&& files@.len() == if sending.vm.net is Some {
                4nat
            } else {
                3nat
            }
        },
{
    let work = sending.vm.work@;
    let files = sent->files@;
    let models = transfer::file_models(files);
    let whole = steps::sent_files(work, sending.extra());
    assert(models.len() == files.len());
    assert(models[2] == files[2].model());
    assert(whole[2] == ("vsock.txt"@, paths::under(work, "vsock.txt"@)));
    assert(files[2].name@ == "vsock.txt"@);
    assert(sent_as(files, "vsock.txt"@, paths::under(work, "vsock.txt"@)));
    assert(paths::under(reading.work@, "vsock.txt"@) == read->ReadText_0@);
    if sending.vm.net is Some {
        assert(models[3] == files[3].model());
        assert(whole[3] == ("net.json"@, paths::under(work, "net.json"@)));
        assert(files[3].name@ == "net.json"@);
        assert(sent_as(files, "net.json"@, paths::under(work, "net.json"@)));
        assert(paths::under(reading.work@, "net.json"@) == read_net->ReadNet_0@);
    }
    reveal_strlit("vsock.txt");
    reveal_strlit("net.json");
    assert("vsock.txt"@.len() != "net.json"@.len());
    if paths::under(work, "vsock.txt"@) == paths::under(work, "net.json"@) {
        paths::law_under_is_injective(work, "vsock.txt"@, "net.json"@);
    }
}

/// A snapshot of whatever source has as many files as a target takes: the count that a move sends is
/// one that the restore goes on with, and fewer than the memory and the state never do.
pub proof fn law_file_counts_agree(
    source: SourceRun,
    running: RunningRun,
    from_source: Action,
    from_running: Action,
    networked: bool,
)
    requires
        source.phase == SourcePhase::Freeze(SnapshotPhase::Send),
        running.phase == RunningPhase::Freeze(SnapshotPhase::Send),
        source.is_action(from_source),
        running.is_action(from_running),
    ensures
        from_source matches Action::Send { files, .. } && RestoreRun::turning(
            RestorePhase::Receive,
            networked,
            Event::Received(files@.len() as usize),
        ) == steps::Turning::Go(RestorePhase::ReadNet),
        from_running matches Action::Send { files, .. } && RestoreRun::turning(
            RestorePhase::Receive,
            networked,
            Event::Received(files@.len() as usize),
        ) == steps::Turning::Go(RestorePhase::ReadNet),
        RestoreRun::turning(RestorePhase::Receive, networked, Event::Received(0)) is End,
        RestoreRun::turning(RestorePhase::Receive, networked, Event::Received(1)) is End,
        RestoreRun::turning(RestorePhase::Receive, networked, Event::Received(5)) is End,
{
    assert(transfer::file_models(from_source->files@).len() == from_source->files@.len());
    assert(transfer::file_models(from_running->files@).len() == from_running->files@.len());
}

/// The sockets of a restore meet: the page server listens where Firecracker is told to find it, and
/// the restored VM is controlled over the socket that its process was started with. What is cleared
/// away after a failed load is the directory that the snapshot was received into.
pub proof fn law_restore_sockets_meet(
    creating: RestoreRun,
    receiving: RestoreRun,
    binding: RestoreRun,
    launching: RestoreRun,
    loading: RestoreRun,
    created: Action,
    received: Action,
    bound: Action,
    launched: Action,
    loaded: Action,
    length: Option<u64>,
    vm: RunningVm,
)
    requires
        creating.phase is CreateDir,
        receiving.phase is Receive,
        binding.phase is BindPages,
        launching.phase is Launch,
        loading.phase is Load,
        creating.work@ == loading.work@,
        receiving.work@ == loading.work@,
        binding.work@ == loading.work@,
        launching.work@ == loading.work@,
        creating.is_action(created),
        receiving.is_action(received),
        binding.is_action(bound),
        launching.is_action(launched),
        loading.is_action(loaded),
        loading.restored(length, vm),
    ensures
        ({
            &&& created matches Action::CreateDir(dir)
            &&& received matches Action::Receive { dir: into }
            &&& dir@ == into@
            &&& vm.work@ == dir@
            &&& loading.cleared().last() == steps::Act::RemoveDir(dir@)
        }),
        ({
            &&& bound matches Action::BindPages(at)
            &&& loaded matches Action::Control(ApiOp::LoadSnapshot(source))
            &&& source.backend matches MemBackend::Uffd { socket }
            &&& socket@ == at@
        }),
        launched matches Action::Launch { bin, api_sock, .. } && bin@ == launching.fc_bin@
            && vm.api_sock@ == api_sock@,
        vm.id == loading.id,
        vm.net == loading.net,
        vm.vsock_uds@ == loading.vsock_uds@,
        vm.served,
{
}

/// A restored VM counts as having the memory that its snapshot had: `mib` MiB, where the file is that
/// long, and a part of a MiB over is not counted.
pub proof fn law_memory_is_counted_in_mib(mib: u32, over: u64)
    requires
        over < 1024 * 1024,
    ensures
        mib_of(Some((mib as u64 * 1024 * 1024 + over) as u64)) == mib,
        mib_of(None) == 0,
{
    let n: u64 = (mib as u64 * 1024 * 1024 + over) as u64;
    assert(n / MIB == mib);
}

/// Each step of a restore is taken only where the one that it needs went well: nothing is read before
/// the snapshot is there, a networked VM gets its tap before pages are served, pages are served on a
/// bound socket, the process is up before the load, the guest settles only after the load went well,
/// and only a restore that came to its end hands a VM over.
pub proof fn law_restore_needs_each_step(
    run: RestoreRun,
    event: Event,
    closings: Seq<Closing>,
    result: Result<Option<RunningVm>, MigrateError>,
)
    ensures
        ({
            let next = RestoreRun::turning(run.phase, run.net is Some, event);
            &&& next == steps::Turning::Go(RestorePhase::Receive) ==> run.phase is CreateDir
                && event is Done
            &&& next == steps::Turning::Go(RestorePhase::ReadNet) ==> run.phase is Receive
                && event is Received
            &&& next == steps::Turning::Go(RestorePhase::CreateTap) ==> run.phase is ReadNet
                && event is Net
            &&& next == steps::Turning::Go(RestorePhase::BindPages) ==> (run.phase is ReadNet
                && event is Missing) || (run.phase is CreateTap && event is Done)
            &&& next == steps::Turning::Go(RestorePhase::ServePages) ==> run.phase is BindPages
                && event is Done
            &&& next == steps::Turning::Go(RestorePhase::Launch) ==> event is Done
            &&& next == steps::Turning::Go(RestorePhase::Load) ==> event is Done
            &&& next == steps::Turning::Go(RestorePhase::Settle) ==> run.phase is Load
                && event is Done
            &&& run.phase is Settle && run.net is Some && event is Done ==> next
                == steps::Turning::Go(RestorePhase::Announce)
            &&& run.phase is ReadNet && event is Net ==> next == steps::Turning::Go(
                RestorePhase::CreateTap,
            )
        }),
        RestoreRun::turning(run.phase, run.net is Some, event) is End && run.ends(
            event,
            closings,
            result,
        ) ==> {
            &&& result is Ok <==> run.phase is Measure
            &&& result matches Ok(Some(vm)) ==> run.keep && closings.len() == 0
            &&& result matches Ok(None) ==> !run.keep && steps::acts(closings)[0] is Kill
        },
{
    if run.phase is Measure && !run.keep {
        assert(run.cleared()[0] is Kill);
    }
}

/// What is learned on the way to a restored VM is kept: its vsock path is the text that travelled with
/// it, without the white space around it, and nothing else of the run changes.
pub proof fn law_restore_keeps_what_it_learns(run: RestoreRun, event: Event, after: RestoreRun)
    requires
        run.learns(event, after),
    ensures
        after.id == run.id,
        after.work == run.work,
        after.fc_bin == run.fc_bin,
        after.keep == run.keep,
        run.phase is ReadVsock ==> (event matches Event::Text(t) ==> after.vsock_uds@ == text::trim(
            t@,
        )),
        !(run.phase is ReadVsock && event is Text) ==> after.vsock_uds@ == run.vsock_uds@,
        !(run.phase is ReadNet && event is Net) ==> after.net == run.net,
{
}

/// A snapshot goes step by step, each after the one before it went well: the guest is paused before
/// its snapshot is written, the snapshot is written before it is sent, and only what was sent is
/// measured. Every failure ends it.
pub proof fn law_snapshot_goes_step_by_step(phase: SnapshotPhase, event: Event, end: SnapshotEnd)
    ensures
        snapshot_turning(phase, event) == steps::Turning::Go(SnapshotPhase::Write) ==> phase is Pause
            && event is Done,
        snapshot_turning(phase, event) == steps::Turning::Go(SnapshotPhase::Send) ==> phase is Write
            && event is Done,
        snapshot_turning(phase, event) == steps::Turning::Go(SnapshotPhase::Measure) ==> phase is Send
            && event is Done,
        snapshot_turning(phase, event) != steps::Turning::Go(SnapshotPhase::Pause),
        event is Done && !(phase is Measure) ==> snapshot_turning(phase, event) is Go,
        snapshot_turning(phase, event) is End && snapshot_ends(phase, event, end) ==> {
            &&& end is Sent <==> phase is Measure
            &&& end matches SnapshotEnd::Failed(e) ==> match event {
                Event::Refused(why) => e == MigrateError::Firecracker(why),
                Event::Broken(why) => e == MigrateError::Transfer(why),
                _ => false,
            }
        },
{
}

/// A move pauses the guest first of all, and only from the point where it was found idle and its link
/// closed: there is no other way into a snapshot than by its beginning.
pub proof fn law_freeze_begins_with_the_pause(
    source: SourcePhase,
    running: RunningPhase,
    networked: bool,
    event: Event,
    into: SnapshotPhase,
)
    ensures
        !(source is Freeze) && SourceRun::turning(source, event) == steps::Turning::Go(
            SourcePhase::Freeze(into),
        ) ==> into is Pause && source is CloseLink && event is Done,
        !(running is Freeze) && RunningRun::turning(running, networked, event)
            == steps::Turning::Go(RunningPhase::Freeze(into)) ==> into is Pause && event is Done
            && (running is WriteVsock && !networked || running is WriteNet),
        RunningRun::turning(running, networked, event) == steps::Turning::Go(RunningPhase::WriteNet)
            ==> running is WriteVsock && networked && event is Done,
        RunningRun::turning(running, networked, event) == steps::Turning::Go(
            RunningPhase::WriteVsock,
        ) ==> running is CloseLink && event is Done,
        RunningRun::turning(running, networked, event) == steps::Turning::Go(RunningPhase::CloseLink)
            ==> running is Drain && event == Event::Drained(DrainState::Quiescent),
        SourceRun::turning(source, event) == steps::Turning::Go(SourcePhase::CloseLink) ==> source
            is Drain && event == Event::Drained(DrainState::Quiescent),
{
}

/// A VM that is booted to be moved goes forward only: it has a directory before its process starts, a
/// process before it is configured, runs before its guest is reached, and its guest has said hello
/// before it is asked to drain.
pub proof fn law_source_goes_forward(phase: SourcePhase, event: Event)
    ensures
        SourceRun::turning(phase, event) == steps::Turning::Go(SourcePhase::Launch) ==> phase
            is CreateDir && event is Done,
        SourceRun::turning(phase, event) == steps::Turning::Go(
            SourcePhase::Configure(BootPhase::Machine),
        ) ==> phase is Launch && event is Done,
        SourceRun::turning(phase, event) == steps::Turning::Go(SourcePhase::Connect) ==> phase
            == SourcePhase::Configure(BootPhase::Start) && event is Done,
        SourceRun::turning(phase, event) == steps::Turning::Go(SourcePhase::Handshake) ==> phase
            is Connect && event is Done,
        SourceRun::turning(phase, event) == steps::Turning::Go(SourcePhase::Drain) ==> phase
            is Handshake && event is Done,
        SourceRun::turning(phase, Event::Drained(DrainState::Busy)) is Go ==> false,
{
}

/// A guest is reached where it was set up to listen: the vsock socket that the host dials is the one
/// that the VM's device was given, on the guest's own port; a networked guest is dialled at its own
/// address. What is asked of it there has a deadline, shorter than the time given to reach it.
pub proof fn law_guest_is_dialled_where_it_listens(
    booting: SourceRun,
    dialling: SourceRun,
    draining: SourceRun,
    running: RunningRun,
    configured: Action,
    dialled: Action,
    drained: Action,
    redialled: Action,
)
    requires
        booting.phase == SourcePhase::Configure(BootPhase::Vsock),
        dialling.phase is Connect,
        draining.phase is Drain,
        booting.plan == dialling.plan,
        booting.is_action(configured),
        dialling.is_action(dialled),
        draining.is_action(drained),
        running.phase is Connect,
        running.is_action(redialled),
    ensures
        ({
            &&& configured matches Action::Control(ApiOp::ConfigureVsock(device))
            &&& dialled matches Action::ConnectVsock { uds, port, timeout }
            &&& drained matches Action::Drain { deadline }
            &&& uds@ == device.uds_path@
            &&& port == GUEST_VSOCK_PORT
            &&& 0 < deadline@ < timeout@
        }),
        match running.vm.net {
            Some(net) => redialled matches Action::ConnectTcp { addr, timeout } && text::starts_with(
                addr@,
                net.ip@,
            ) && timeout@ > 0,
            None => redialled matches Action::ConnectVsock { uds, port, .. } && uds@
                == running.vm.vsock_uds@ && port == GUEST_VSOCK_PORT,
        },
{
    if let Some(net) = running.vm.net {
        let addr = redialled->ConnectTcp_addr@;
        assert(addr.take(net.ip@.len() as int) =~= net.ip@);
    }
}

/// The times that a move reports are those of its parts: from when the pause was asked for until the
/// snapshot was written, and from then until it was sent. Together they are how long the guest stood
/// still. The memory is as long as it was measured.
pub proof fn law_timing_is_of_the_parts(
    clock: Clock,
    paused: Duration,
    writing: Duration,
    written: Duration,
    sent: Duration,
    length: u64,
    timing: SourceTiming,
)
    requires
        paused@ <= written@ <= sent@,
        ticked(
            ticked(
                ticked(
                    ticked(clock, SnapshotPhase::Pause, paused),
                    SnapshotPhase::Write,
                    writing,
                ),
                SnapshotPhase::Send,
                written,
            ),
            SnapshotPhase::Measure,
            sent,
        ).says(Some(length), timing),
    ensures
        timing.snapshot@ == written@ - paused@,
        timing.transfer@ == sent@ - written@,
        timing.bytes == length,
        sent@ - paused@ <= time::max_nanos() ==> counted(timing) == (steps::Act::CountMoved {
            freeze: (sent@ - paused@) as nat,
            bytes: length,
        }),
{
}

/// A move that succeeded came to its end: it is reported, and counted, only once the snapshot was sent
/// and measured. A move that failed in its snapshot is counted as failed where the VM was running, and
/// kills the VM either way. A busy guest is an error only where the VM was booted for the move.
pub proof fn law_only_sent_moves_count(
    source: SourceRun,
    running: RunningRun,
    event: Event,
    closings: Seq<Closing>,
    timed: Result<SourceTiming, MigrateError>,
    outcome: Result<MigrateOutcome, MigrateError>,
)
    ensures
        SourceRun::turning(source.phase, event) is End && source.ends(event, closings, timed) ==> {
            &&& timed is Ok <==> source.phase == SourcePhase::Freeze(SnapshotPhase::Measure)
            &&& (timed matches Err(MigrateError::NotQuiescent)) <==> source.phase is Drain && event
                == Event::Drained(DrainState::Busy)
            &&& source.phase is Freeze ==> steps::acts(closings)[0] is Kill
            &&& source.phase is Drain ==> steps::acts(closings)[0] is Kill && steps::acts(
                closings,
            ).contains(steps::Act::RemoveDir(source.plan.work@)) && steps::acts(closings).contains(
                steps::Act::RemoveFile(source.plan.vsock_uds@),
            )
            &&& timed is Ok ==> steps::acts(closings).last() is CountMoved
        },
        RunningRun::turning(running.phase, running.vm.net is Some, event) is End && running.ends(
            event,
            closings,
            outcome,
        ) ==> {
            &&& (outcome matches Ok(MigrateOutcome::Moved(_))) <==> running.phase
                == RunningPhase::Freeze(SnapshotPhase::Measure)
            &&& outcome matches Ok(MigrateOutcome::Moved(_)) ==> steps::acts(closings)[0]
                is CountMoved
            &&& running.phase is Freeze && outcome is Err ==> steps::acts(closings)[0]
                is CountFailed
            &&& running.phase is Freeze ==> steps::acts(closings)[1] is Kill
            &&& !(running.phase is Freeze) ==> !steps::acts(closings).contains(
                steps::Act::CountFailed,
            )
        },
{
    if SourceRun::turning(source.phase, event) is End && source.ends(event, closings, timed)
        && source.phase is Drain {
        let acts = steps::acts(closings);
        assert(acts[1] == steps::Act::RemoveDir(source.plan.work@));
        assert(acts[2] == steps::Act::RemoveFile(source.plan.vsock_uds@));
    }
    if RunningRun::turning(running.phase, running.vm.net is Some, event) is End && running.ends(
        event,
        closings,
        outcome,
    ) {
        let acts = steps::acts(closings);
        if running.phase is Freeze {
            assert(running.vm.torn_down()[0] is Kill);
            assert(acts[1] == running.vm.torn_down()[0]);
        }
    }
}

/// The files that a VM is booted from are told apart by their names: a kernel is no Firecracker
/// binary and no root disk, whatever else its name holds, and what is only for debugging, or packed,
/// is no binary to run.
pub proof fn law_artifacts_are_told_apart(name: Seq<char>)
    ensures
        ArtifactKind::Kernel.named(name) ==> !ArtifactKind::Firecracker.named(name)
            && !ArtifactKind::Rootfs.named(name),
        ArtifactKind::Firecracker.named(name) ==> !ArtifactKind::Rootfs.named(name),
        text::ends_with(name, ".debug"@) || text::ends_with(name, ".tgz"@)
            ==> !ArtifactKind::Firecracker.named(name),
        text::starts_with(name, "vmlinux"@) ==> ArtifactKind::Kernel.named(name),
        text::starts_with(name, "guestd-rootfs"@) ==> ArtifactKind::Rootfs.named(name),
{
    reveal_strlit("firecracker-");
    reveal_strlit("vmlinux");
    reveal_strlit("guestd-rootfs");
    if name.len() > 0 {
        let c = name[0];
        if text::starts_with(name, "vmlinux"@) {
            assert(name.take(7)[0] == 'v');
        }
        if text::starts_with(name, "firecracker-"@) {
            assert(name.take(12)[0] == 'f');
        }
        if text::starts_with(name, "guestd-rootfs"@) {
            assert(name.take(13)[0] == 'g');
        }
    }
}

/// What is found under a directory is one of its own files where one fits, and a file of the kind
/// that was looked for, at its own path.
pub proof fn law_found_is_of_the_kind(files: Seq<DirFile>, kind: ArtifactKind, i: int)
    requires
        0 <= i,
    ensures
        match first_file(files, kind, i) {
            Some(path) => exists|j: int|
                i <= j < files.len() && kind.named((#[trigger] files[j]).name@) && files[j].path@
                    == path && forall|k: int|
                    i <= k < j ==> !kind.named((#[trigger] files[k]).name@),
            None => forall|j: int|
                i <= j < files.len() ==> !kind.named((#[trigger] files[j]).name@),
        },
    decreases files.len() - i,
{
    if i < files.len() && !kind.named(files[i].name@) {
        law_found_is_of_the_kind(files, kind, i + 1);
        if let Some(path) = first_file(files, kind, i + 1) {
            let j = choose|j: int|
                i + 1 <= j < files.len() && kind.named((#[trigger] files[j]).name@)
                    && files[j].path@ == path && forall|k: int|
                    i + 1 <= k < j ==> !kind.named((#[trigger] files[k]).name@);
            assert(kind.named(files[j].name@));
        }
    }
}

/// What has a limit in time has this much of it: ten seconds for a process to come up, twenty to reach
/// a guest, five for the guest to drain. A restored guest gets three tenths of a second to settle.
pub proof fn law_times_allowed(
    fc_bin: Seq<char>,
    work: Seq<char>,
    uds: Seq<char>,
    action: Action,
    settling: RestoreRun,
    dialling: RunningRun,
)
    ensures
        steps::is_launch(fc_bin, work, action) ==> (action matches Action::Launch { timeout, .. }
            && timeout@ == 10_000_000_000),
        is_vsock_connect(uds, action) ==> (action matches Action::ConnectVsock { timeout, .. }
            && timeout@ == 20_000_000_000),
        is_drain(action) ==> (action matches Action::Drain { deadline } && deadline@
            == 5_000_000_000),
        settling.phase is Settle && settling.is_action(action) ==> (action matches Action::Sleep(
            span,
        ) && span@ == 300_000_000),
        dialling.phase is Connect && dialling.is_action(action) ==> match action {
            Action::ConnectTcp { timeout, .. } => timeout@ == 20_000_000_000,
            Action::ConnectVsock { timeout, .. } => timeout@ == 20_000_000_000,
            _ => false,
        },
{
}

/// Whether `e` tells of a file or a socket for the reason `why`.
pub open spec fn tells_why(e: MigrateError, why: Seq<char>) -> bool {
    e matches MigrateError::Io { source, .. } && source@ == why
}

/// A restore that fails says why: what Firecracker refused, how the transfer broke, or for what reason
/// a file or a socket failed; a snapshot of a wrong number of files is told by that number.
pub proof fn law_restore_says_why_it_failed(
    run: RestoreRun,
    event: Event,
    closings: Seq<Closing>,
    result: Result<Option<RunningVm>, MigrateError>,
)
    requires
        RestoreRun::turning(run.phase, run.net is Some, event) is End,
        run.ends(event, closings, result),
    ensures
        match event {
            Event::Failed(why) => result matches Err(e) && tells_why(e, why@),
            Event::Malformed(why) => result matches Err(e) && tells_why(e, why@),
            Event::Refused(why) => result matches Err(MigrateError::Firecracker(e)) && e == why,
            Event::Broken(why) => result matches Err(MigrateError::Transfer(e)) && e == why,
            Event::Received(n) => result matches Err(MigrateError::Snapshot(why))
                && text::ends_with(why@, text::decimal(n as nat)),
            _ => result is Ok,
        },
{
    if let Event::Received(n) = event {
        text::law_parts_are_found(
            "expected 2..4 files, got "@,
            text::decimal(n as nat),
            Seq::empty(),
        );
    }
}

/// A move of a VM that was booted for it says why it failed, and a guest that was busy is told as that.
pub proof fn law_source_says_why_it_failed(
    run: SourceRun,
    event: Event,
    closings: Seq<Closing>,
    result: Result<SourceTiming, MigrateError>,
)
    requires
        SourceRun::turning(run.phase, event) is End,
        run.ends(event, closings, result),
    ensures
        match event {
            Event::Failed(why) => result matches Err(e) && tells_why(e, why@),
            Event::Refused(why) => result matches Err(MigrateError::Firecracker(e)) && e == why,
            Event::Broken(why) => result matches Err(MigrateError::Transfer(e)) && e == why,
            Event::Drained(state) => state is Busy && (result matches Err(
                MigrateError::NotQuiescent,
            )),
            Event::Length(length) => result matches Ok(timing) && timing.bytes == (match length {
                Some(n) => n,
                None => 0,
            }),
            _ => false,
        },
{
}

/// A move of a running VM says why it failed once the guest was found idle, and before that hands the
/// VM back.
pub proof fn law_running_says_why_it_failed(
    run: RunningRun,
    event: Event,
    closings: Seq<Closing>,
    result: Result<MigrateOutcome, MigrateError>,
)
    requires
        RunningRun::turning(run.phase, run.vm.net is Some, event) is End,
        run.ends(event, closings, result),
    ensures
        RunningRun::undecided(run.phase) ==> (result matches Ok(MigrateOutcome::StoodDown(vm)) && vm
            == run.vm),
        !RunningRun::undecided(run.phase) ==> match event {
            Event::Failed(why) => result matches Err(e) && tells_why(e, why@),
            Event::Malformed(why) => result matches Err(e) && tells_why(e, why@),
            Event::Refused(why) => result matches Err(MigrateError::Firecracker(e)) && e == why,
            Event::Broken(why) => result matches Err(MigrateError::Transfer(e)) && e == why,
            Event::Length(length) => result matches Ok(MigrateOutcome::Moved(timing))
                && timing.bytes == (match length {
                Some(n) => n,
                None => 0,
            }),
            _ => false,
        },
{
}

/// A VM that was booted to be moved leaves nothing behind once it runs, unless Firecracker or the
/// transfer failed: the process is killed, and its directory and its socket go. Before its process
/// runs there is nothing to clear.
pub proof fn law_booted_source_clears_up(
    run: SourceRun,
    event: Event,
    closings: Seq<Closing>,
    result: Result<SourceTiming, MigrateError>,
)
    requires
        SourceRun::turning(run.phase, event) is End,
        run.ends(event, closings, result),
    ensures
        run.phase is CreateDir || run.phase is Launch <==> closings.len() == 0,
        closings.len() > 0 ==> steps::acts(closings)[0] is Kill,
        run.phase is Connect || run.phase is Handshake || run.phase is Drain || result is Ok ==> {
            &&& closings.len() >= 3
            &&& steps::acts(closings)[1] == steps::Act::RemoveDir(run.plan.work@)
            &&& steps::acts(closings)[2] == steps::Act::RemoveFile(run.plan.vsock_uds@)
        },
        result matches Ok(timing) ==> closings.len() == 4 && (steps::acts(
            closings,
        )[3] matches steps::Act::CountMoved { freeze, bytes } && bytes == timing.bytes && (
        timing.snapshot@ + timing.transfer@ <= time::max_nanos() ==> freeze == timing.snapshot@
            + timing.transfer@)),
{
    assert(steps::acts(closings).len() == closings.len());
}

/// A restore that fails before its process runs kills nothing; one that was only a trial clears away
/// all that it made: process, page server, tap, directory and socket.
pub proof fn law_restore_clears_up(
    run: RestoreRun,
    event: Event,
    closings: Seq<Closing>,
    result: Result<Option<RunningVm>, MigrateError>,
)
    requires
        RestoreRun::turning(run.phase, run.net is Some, event) is End,
        run.ends(event, closings, result),
    ensures
        run.phase is Load || (run.phase is Measure && !run.keep) <==> steps::acts(closings).contains(
            steps::Act::Kill,
        ),
        run.phase is CreateTap ==> steps::acts(closings) == seq![steps::Act::RemoveDir(run.work@)],
        run.phase is Measure && run.keep ==> closings.len() == 0,
        run.phase is Measure && !run.keep ==> {
            let acts = steps::acts(closings);
            &&& acts[0] is Kill
            &&& acts[1] is StopPages
            &&& acts[acts.len() - 2] == steps::Act::RemoveDir(run.work@)
            &&& acts.last() == steps::Act::RemoveFile(run.vsock_uds@)
            &&& run.net matches Some(net) ==> acts[2] == steps::Act::DestroyTap(net.tap@)
            &&& acts.len() == if run.net is Some {
                5nat
            } else {
                4nat
            }
        },
{
    let acts = steps::acts(closings);
    assert(acts.len() == closings.len());
    if run.phase is Load || (run.phase is Measure && !run.keep) {
        assert(run.cleared()[0] is Kill);
        assert(acts[0] is Kill);
    } else if run.phase is CreateTap {
        assert(acts[0] is RemoveDir);
    }
}

/// A move of a running VM goes forward only: the guest is reached before it is greeted, and greeted
/// before it is asked to drain; a guest that is busy is told to go on before the VM is handed back.
pub proof fn law_running_goes_forward(phase: RunningPhase, networked: bool, event: Event)
    ensures
        RunningRun::turning(phase, networked, event) == steps::Turning::Go(RunningPhase::Handshake)
            ==> phase is Connect && event is Done,
        RunningRun::turning(phase, networked, event) == steps::Turning::Go(RunningPhase::Drain)
            ==> phase is Handshake && event is Done,
        RunningRun::turning(phase, networked, event) == steps::Turning::Go(RunningPhase::CancelDrain)
            ==> phase is Drain && event == Event::Drained(DrainState::Busy),
        RunningRun::turning(phase, networked, event) != steps::Turning::Go(RunningPhase::Connect),
        event is Done && !(phase is Drain) && !(phase is CancelDrain) && phase
            != RunningPhase::Freeze(SnapshotPhase::Measure) ==> RunningRun::turning(
            phase,
            networked,
            event,
        ) is Go,
{
}

/// The tap that a restore creates, and takes down again where the load fails, is the one that the VM
/// brought with it.
pub proof fn law_restored_tap_is_the_one_brought(
    reading: RestoreRun,
    net: NetId,
    creating: RestoreRun,
    created: Action,
)
    requires
        reading.phase is ReadNet,
        reading.learns(Event::Net(net), creating),
        creating.phase is CreateTap,
        creating.is_action(created),
    ensures
        created matches Action::CreateTap(tap) && tap@ == net.tap@,
        creating.cleared().contains(steps::Act::DestroyTap(net.tap@)),
{
    assert(creating.cleared()[2] == steps::Act::DestroyTap(net.tap@));
}

/// A restore begins with nothing but its own directory, which no other restore of the process has, and
/// knows of no network and no socket yet.
pub proof fn law_restore_begins_with_nothing(
    step: Step<RestoreRun, Option<RunningVm>>,
    other: Step<RestoreRun, Option<RunningVm>>,
    fc_bin: Seq<char>,
    temp: Seq<char>,
    pid: u32,
    seqs: (u64, u64),
    keep: (bool, bool),
)
    requires
        restore_begins(step, fc_bin, temp, pid, seqs.0, keep.0),
        restore_begins(other, fc_bin, temp, pid, seqs.1, keep.1),
        seqs.0 != seqs.1,
    ensures
        ({
            &&& step matches Step::Perform(run, action)
            &&& other matches Step::Perform(other_run, _)
            &&& run.net is None
            &&& run.vsock_uds@ == ""@
            &&& run.keep == keep.0
            &&& run.fc_bin@ == fc_bin
            &&& action matches Action::CreateDir(dir)
            &&& dir@ == run.work@
            &&& text::starts_with(dir@, temp)
            &&& run.work@ != other_run.work@
        }),
{
    steps::law_run_paths_are_distinct(temp, "sleepwalk-tgt-"@, pid, seqs.0, seqs.1, ""@);
    let name = steps::run_name("sleepwalk-tgt-"@, pid, seqs.0, ""@);
    paths::law_under_extends(temp, name);
}

/// Whether `event` means that what a restore did in `phase` went well, or does not matter.
pub open spec fn restore_goes_well(phase: RestorePhase, event: Event) -> bool {
    match phase {
        RestorePhase::Receive => event matches Event::Received(n) && 2 <= n <= 4,
        RestorePhase::ReadNet => event is Missing || event is Net,
        RestorePhase::Announce => event is Done || event is Failed,
        RestorePhase::ReadVsock => event is Text || event is Missing || event is Failed,
        RestorePhase::Measure => event is Length,
        _ => event is Done,
    }
}

/// A restore goes on from every step that went well, and its last step is its end. No failure is
/// passed over: what did not go well never leads on.
pub proof fn law_restore_goes_on(phase: RestorePhase, networked: bool, event: Event)
    ensures
        restore_goes_well(phase, event) && !(phase is Measure) ==> RestoreRun::turning(
            phase,
            networked,
            event,
        ) is Go,
        restore_goes_well(phase, event) && phase is Measure ==> RestoreRun::turning(
            phase,
            networked,
            event,
        ) is End,
        !restore_goes_well(phase, event) ==> !(RestoreRun::turning(phase, networked, event) is Go),
        RestoreRun::turning(phase, networked, event) == steps::Turning::Go(RestorePhase::ReadVsock)
            ==> phase is Announce || (phase is Settle && !networked),
        RestoreRun::turning(phase, networked, event) == steps::Turning::Go(RestorePhase::Measure)
            ==> phase is ReadVsock,
{
}

/// A move of a VM that is booted for it goes on from every step that went well, up to its end, and
/// ends with every step that did not.
pub proof fn law_source_goes_on(phase: SourcePhase, event: Event)
    ensures
        event is Done && !(phase is Drain) && phase != SourcePhase::Freeze(SnapshotPhase::Measure)
            ==> SourceRun::turning(phase, event) is Go,
        phase is Drain && event == Event::Drained(DrainState::Quiescent) ==> SourceRun::turning(
            phase,
            event,
        ) is Go,
        phase == SourcePhase::Freeze(SnapshotPhase::Measure) && event is Length
            ==> SourceRun::turning(phase, event) is End,
        SourceRun::turning(phase, event) is Go ==> event is Done || event == Event::Drained(
            DrainState::Quiescent,
        ),
        phase is Configure && event is Refused ==> SourceRun::turning(phase, event) is End,
        event is Failed && (phase is CreateDir || phase is Launch || phase is Connect || phase
            is Handshake || phase is Drain) ==> SourceRun::turning(phase, event) is End,
{
}

/// So does a snapshot: what Firecracker refuses or the transfer breaks is its end, in whatever step it
/// comes.
pub proof fn law_snapshot_ends_on_failure(phase: SnapshotPhase, event: Event)
    ensures
        event is Refused && (phase is Pause || phase is Write) ==> snapshot_turning(phase, event)
            is End,
        event is Broken && phase is Send ==> snapshot_turning(phase, event) is End,
        event is Length && phase is Measure ==> snapshot_turning(phase, event) is End,
        snapshot_turning(phase, event) is Go ==> event is Done,
{
}

/// A run stays about its own VM and its own target from step to step, does in each step what the
/// step is for, and where an event does not answer its action, does that action again.
pub proof fn law_source_stays_its_own(
    run: SourceRun,
    event: Event,
    now: Duration,
    step: Step<SourceRun, SourceTiming>,
)
    requires
        run.leads_to(event, now, step),
    ensures
        step matches Step::Perform(next, action) ==> {
            &&& next.plan == run.plan
            &&& next.addr == run.addr
            &&& next.is_action(action)
            &&& SourceRun::turning(run.phase, event) is Stay ==> next == run
            &&& SourceRun::turning(run.phase, event) matches steps::Turning::Go(phase) ==> next.phase
                == phase
        },
        step is Finish <==> SourceRun::turning(run.phase, event) is End,
        step matches Step::Finish(closings, result) ==> run.ends(event, closings@, result),
{
}

/// So does the move of a running VM.
pub proof fn law_running_stays_its_own(
    run: RunningRun,
    event: Event,
    now: Duration,
    step: Step<RunningRun, MigrateOutcome>,
)
    requires
        run.leads_to(event, now, step),
    ensures
        step matches Step::Perform(next, action) ==> {
            &&& next.vm == run.vm
            &&& next.addr == run.addr
            &&& next.is_action(action)
            &&& RunningRun::turning(run.phase, run.vm.net is Some, event) is Stay ==> next == run
            &&& RunningRun::turning(
                run.phase,
                run.vm.net is Some,
                event,
            ) matches steps::Turning::Go(phase) ==> next.phase == phase
        },
        step is Finish <==> RunningRun::turning(run.phase, run.vm.net is Some, event) is End,
        step matches Step::Finish(closings, result) ==> run.ends(event, closings@, result),
{
}

/// And a restore.
pub proof fn law_restore_stays_its_own(
    run: RestoreRun,
    event: Event,
    step: Step<RestoreRun, Option<RunningVm>>,
)
    requires
        run.leads_to(event, step),
    ensures
        step matches Step::Perform(next, action) ==> {
            &&& next.id == run.id
            &&& next.work == run.work
            &&& next.fc_bin == run.fc_bin
            &&& next.keep == run.keep
            &&& next.is_action(action)
            &&& run.net is Some && !(run.phase is ReadNet) ==> next.net == run.net
            &&& RestoreRun::turning(run.phase, run.net is Some, event) is Stay ==> next == run
            &&& RestoreRun::turning(run.phase, run.net is Some, event) matches steps::Turning::Go(
                phase,
            ) ==> next.phase == phase
        },
        step is Finish <==> RestoreRun::turning(run.phase, run.net is Some, event) is End,
        step matches Step::Finish(closings, result) ==> run.ends(event, closings@, result),
{
}

/// The clock of a move is read when the pause is asked for, when the snapshot was written and when it
/// was sent, and at no other time; no reading changes another.
pub proof fn law_clock_is_read_three_times(
    source: SourceRun,
    running: RunningRun,
    phase: SnapshotPhase,
    now: Duration,
)
    ensures
        ({
            let clock = source.ticks(SourcePhase::Freeze(phase), now);
            &&& clock.begun == if phase is Pause {
                now
            } else {
                source.clock.begun
            }
            &&& clock.written == if phase is Send {
                now
            } else {
                source.clock.written
            }
            &&& clock.sent == if phase is Measure {
                now
            } else {
                source.clock.sent
            }
        }),
        ({
            let clock = running.ticks(RunningPhase::Freeze(phase), now);
            &&& clock.begun == if phase is Pause {
                now
            } else {
                running.clock.begun
            }
            &&& clock.written == if phase is Send {
                now
            } else {
                running.clock.written
            }
            &&& clock.sent == if phase is Measure {
                now
            } else {
                running.clock.sent
            }
        }),
        source.ticks(SourcePhase::CloseLink, now) == source.clock,
        running.ticks(RunningPhase::WriteNet, now) == running.clock,
{
}

/// What a move does in each step is what the step is for, on the VM's own directory and with the VM's
/// own binary.
pub proof fn law_steps_do_what_they_are_for(
    source: SourceRun,
    running: RunningRun,
    action: Action,
    other: Action,
)
    requires
        source.is_action(action),
        running.is_action(other),
    ensures
        source.phase is CreateDir ==> (action matches Action::CreateDir(dir) && dir@
            == source.plan.work@),
        source.phase is Launch ==> (action matches Action::Launch { bin, api_sock, .. } && bin@
            == source.plan.art.fc_bin@ && text::starts_with(api_sock@, source.plan.work@)),
        source.phase is Handshake ==> action is Handshake,
        source.phase is Drain ==> action is Drain,
        source.phase is CloseLink ==> action is CloseLink,
        source.phase == SourcePhase::Freeze(SnapshotPhase::Pause) ==> action == Action::Control(
            ApiOp::Pause,
        ),
        source.phase == SourcePhase::Configure(BootPhase::Start) ==> action == Action::Control(
            ApiOp::Boot,
        ),
        running.phase is Handshake ==> other is Handshake,
        running.phase is Drain ==> other is Drain,
        running.phase is CancelDrain ==> other is CancelDrain,
        running.phase is CloseLink ==> other is CloseLink,
        running.phase == RunningPhase::Freeze(SnapshotPhase::Pause) ==> other == Action::Control(
            ApiOp::Pause,
        ),
        running.phase == RunningPhase::Freeze(SnapshotPhase::Send) ==> (
        other matches Action::Send { addr, .. } && addr@ == running.addr@),
{
    paths::law_under_extends(source.plan.work@, "fc.sock"@);
}

/// A root disk that is given is the one that is used, wherever others lie; the other files are looked
/// for all the same. Nothing is missing only where all three are there.
pub proof fn law_given_root_disk_counts(dir: DirTree, rootfs: Option<String>)
    ensures
        rootfs matches Some(path) ==> rootfs_path(dir, rootfs) == Some(path@),
        rootfs is None ==> rootfs_path(dir, rootfs) == found(dir, ArtifactKind::Rootfs),
        first_missing(dir, rootfs) is None <==> {
            &&& rootfs is Some || found(dir, ArtifactKind::Rootfs) is Some
            &&& found(dir, ArtifactKind::Firecracker) is Some
            &&& found(dir, ArtifactKind::Kernel) is Some
        },
        first_missing(dir, rootfs) matches Some(kind) ==> found(dir, kind) is None,
        rootfs is Some ==> first_missing(dir, rootfs) != Some(ArtifactKind::Rootfs),
{
}

/// A directory's own files come before those of the directories in it, and an earlier directory before
/// a later one.
pub proof fn law_nearer_files_come_first(dir: DirTree, kind: ArtifactKind, dirs: Seq<DirTree>, last: DirTree)
    ensures
        first_file(dir.files@, kind, 0) is Some ==> found(dir, kind) == first_file(
            dir.files@,
            kind,
            0,
        ),
        first_file(dir.files@, kind, 0) is None ==> found(dir, kind) == found_among(dir.dirs@, kind),
        found_among(dirs, kind) is Some ==> found_among(dirs.push(last), kind) == found_among(
            dirs,
            kind,
        ),
        found_among(dirs, kind) is None ==> found_among(dirs.push(last), kind) == found(last, kind),
        found_among(Seq::empty(), kind) is None,
{
    assert(dirs.push(last).drop_last() =~= dirs);
    assert(dirs.push(last).last() == last);
}

} // verus!
