//! What a host does to boot, move and restore a VM, one action at a time.
//!
//! A run decides what is done next from what came of the action before. Whoever performs the actions
//! hands back an event for each. A run ends with a result and with what is still to be cleared away.

use vstd::prelude::*;

use crate::hostd::firecracker::{
    ApiOp, BootSource, Drive, FirecrackerError, MachineConfig, NetworkConfig, SnapshotTarget,
    VsockConfig,
};
use crate::hostd::guestlink::DrainState;
use crate::hostd::net;
use crate::hostd::net::{boot_arg, NetId};
use crate::hostd::transfer;
use crate::hostd::transfer::{OutboundFile, TransferError};
use crate::hostd::uffd::UffdError;
use crate::paths;
use crate::paths::join;
use crate::text;
use crate::text::decimal_of;
use crate::time::Duration;

verus! {

/// A failure of a boot, a move or a restore.
#[derive(Debug, PartialEq, Eq)]
pub enum MigrateError {
    /// A Firecracker operation failed.
    Firecracker(FirecrackerError),
    /// The transfer of the snapshot failed.
    Transfer(TransferError),
    /// The page server failed.
    Uffd(UffdError),
    /// A file or a socket could not be worked with.
    Io {
        /// What was being done.
        context: String,
        /// What went wrong.
        source: String,
    },
    /// The VM did not come up in time.
    BootTimeout,
    /// A turn was in flight at the drain deadline. It wins, and the migration stands down.
    NotQuiescent,
    /// A file that a VM is booted from is missing.
    MissingArtifact(&'static str),
    /// The snapshot that arrived is not one.
    Snapshot(String),
}

/// The failure of something with files or sockets.
pub fn io_error(context: &str, source: String) -> (e: MigrateError)
    ensures
        is_io_error(e, context@, source@),
{
    MigrateError::Io { context: context.to_owned(), source }
}

/// Whether an error says that something with files or sockets failed.
pub open spec fn is_io_error(e: MigrateError, context: Seq<char>, source: Seq<char>) -> bool {
    e matches MigrateError::Io { context: c, source: s } && c@ == context && s@ == source
}

/// Something to do.
#[derive(Debug, PartialEq, Eq)]
pub enum Action {
    /// Create a directory and those above it.
    CreateDir(String),
    /// Run the `ip` commands that create this tap on the bridge.
    CreateTap(String),
    /// Start Firecracker and wait for its API socket.
    Launch {
        /// The binary.
        bin: String,
        /// The API socket.
        api_sock: String,
        /// Where the guest's console goes.
        serial_log: String,
        /// How long to wait for the socket.
        timeout: Duration,
    },
    /// Ask Firecracker for an operation.
    Control(ApiOp),
    /// Connect to the guest over vsock.
    ConnectVsock {
        /// The socket on the host.
        uds: String,
        /// The guest's port.
        port: u32,
        /// How long to keep trying.
        timeout: Duration,
    },
    /// Connect to the guest over its network.
    ConnectTcp {
        /// The guest's address and port.
        addr: String,
        /// How long to keep trying.
        timeout: Duration,
    },
    /// Complete the boot handshake, with no secrets.
    Handshake,
    /// Ask the guest to drain.
    Drain {
        /// How long the guest has.
        deadline: Duration,
    },
    /// Tell the guest that it need not drain. Whether that arrives does not matter.
    CancelDrain,
    /// Close the link to the guest.
    CloseLink,
    /// Write a file.
    WriteText {
        /// The file.
        path: String,
        /// What it holds.
        text: String,
    },
    /// Write the VM's network identity to a file, as JSON.
    WriteNet(String),
    /// Send files to another host.
    Send {
        /// The other host.
        addr: String,
        /// The files.
        files: Vec<OutboundFile>,
    },
    /// Receive the files of a snapshot.
    Receive {
        /// Where they go.
        dir: String,
    },
    /// Look how long a file is.
    Measure(String),
    /// Read a file, if it is there.
    ReadText(String),
    /// Read the network identity that a file holds as JSON, if it is there.
    ReadNet(String),
    /// Bind the socket of the page server.
    BindPages(String),
    /// Start the page server on the bound socket, over this memory file.
    ServePages(String),
    /// Do nothing for a while.
    Sleep(Duration),
    /// Announce the VM's place on the network. Whether that succeeds does not matter.
    Announce,
}

/// What came of an action.
#[derive(Debug, PartialEq, Eq)]
pub enum Event {
    /// It was done.
    Done,
    /// It failed, for this reason.
    Failed(String),
    /// Firecracker failed the operation.
    Refused(FirecrackerError),
    /// The transfer failed.
    Broken(TransferError),
    /// The guest answered the drain.
    Drained(DrainState),
    /// So many files were received.
    Received(usize),
    /// The file is this long, if that could be found out.
    Length(Option<u64>),
    /// There is no such file.
    Missing,
    /// The file holds this text.
    Text(String),
    /// The file holds this identity.
    Net(NetId),
    /// An identity could not be turned into JSON, or JSON into an identity.
    Malformed(String),
}

/// Something to do when a run has ended. Whether it succeeds does not matter.
#[derive(Debug, PartialEq, Eq)]
pub enum Closing {
    /// Count a migration that succeeded.
    CountMoved {
        /// How long the guest stood still.
        freeze: Duration,
        /// How much memory was moved.
        bytes: u64,
    },
    /// Count a migration that failed.
    CountFailed,
    /// Kill the Firecracker process and reap it.
    Kill,
    /// Stop the page server and wait for it to end.
    StopPages,
    /// Take the tap down.
    DestroyTap(String),
    /// Remove a directory with all it holds.
    RemoveDir(String),
    /// Remove a file.
    RemoveFile(String),
}

/// What a `Closing` does, by the values in it.
pub ghost enum Act {
    CountMoved { freeze: nat, bytes: u64 },
    CountFailed,
    Kill,
    StopPages,
    DestroyTap(Seq<char>),
    RemoveDir(Seq<char>),
    RemoveFile(Seq<char>),
}

impl Closing {
    /// What this does.
    pub open spec fn act(&self) -> Act {
        match *self {
            Closing::CountMoved { freeze, bytes } => Act::CountMoved { freeze: freeze@, bytes },
            Closing::CountFailed => Act::CountFailed,
            Closing::Kill => Act::Kill,
            Closing::StopPages => Act::StopPages,
            Closing::DestroyTap(tap) => Act::DestroyTap(tap@),
            Closing::RemoveDir(dir) => Act::RemoveDir(dir@),
            Closing::RemoveFile(file) => Act::RemoveFile(file@),
        }
    }
}

/// What closings do.
pub open spec fn acts(closings: Seq<Closing>) -> Seq<Act> {
    closings.map_values(|c: Closing| c.act())
}

/// What a run `R` does next.
#[derive(Debug, PartialEq, Eq)]
pub enum Step<R, T> {
    /// Perform this, and hand back to the run what came of it.
    Perform(R, Action),
    /// Do these in order. The run has ended.
    Finish(Vec<Closing>, Result<T, MigrateError>),
}

/// Where a run goes from what came of an action.
pub ghost enum Turning<P> {
    /// The event does not answer the action: the action stands.
    Stay,
    /// On to this phase.
    Go(P),
    /// To the end.
    End,
}

// ---------------------------------------------------------------------------
// Booting
// ---------------------------------------------------------------------------

/// The guest's vsock context id. Each Firecracker process has a vsock of its own, so that every VM
/// can have the same.
pub const GUEST_CID: u32 = 3;

/// The kernel's command line: the root disk is writable, and the guest daemon is init.
pub const BOOT_ARGS: &'static str =
    "console=ttyS0 reboot=k panic=1 pci=off root=/dev/vda rw init=/init";

/// How long Firecracker has to come up, in seconds.
pub const LAUNCH_SECS: u64 = 10;

/// The files that a VM is booted from.
#[derive(Clone, Debug, PartialEq, Eq)]
pub struct Artifacts {
    /// The Firecracker binary.
    pub fc_bin: String,
    /// The guest's kernel.
    pub kernel: String,
    /// The image of the root disk.
    pub rootfs: String,
}

/// A VM to be booted.
#[derive(Debug, PartialEq, Eq)]
pub struct BootPlan {
    /// The files that it is booted from.
    pub art: Artifacts,
    /// The directory of its sockets and logs.
    pub work: String,
    /// Its vsock socket on the host.
    pub vsock_uds: String,
    /// Its memory, in MiB.
    pub mib: u32,
    /// Its network identity, if it has one.
    pub net: Option<NetId>,
}

/// How far the configuration of a VM has come.
#[derive(Clone, Copy, Debug, PartialEq, Eq, Structural)]
pub enum BootPhase {
    /// Its size is being set.
    Machine,
    /// What it boots is being set.
    Source,
    /// Its disk is being attached.
    Disk,
    /// Its vsock device is being attached.
    Vsock,
    /// Its network interface is being attached.
    Network,
    /// It is being started.
    Start,
}

/// The phase after `phase`: only a networked VM gets an interface, and nothing follows the start.
pub open spec fn following(phase: BootPhase, networked: bool) -> Option<BootPhase> {
    match phase {
        BootPhase::Machine => Some(BootPhase::Source),
        BootPhase::Source => Some(BootPhase::Disk),
        BootPhase::Disk => Some(BootPhase::Vsock),
        BootPhase::Vsock => if networked {
            Some(BootPhase::Network)
        } else {
            Some(BootPhase::Start)
        },
        BootPhase::Network => Some(BootPhase::Start),
        BootPhase::Start => None,
    }
}

/// The phase after `phase`.
pub fn next_boot_phase(phase: BootPhase, networked: bool) -> (next: Option<BootPhase>)
    ensures
        next == following(phase, networked),
{
    match phase {
        BootPhase::Machine => Some(BootPhase::Source),
        BootPhase::Source => Some(BootPhase::Disk),
        BootPhase::Disk => Some(BootPhase::Vsock),
        BootPhase::Vsock => if networked {
            Some(BootPhase::Network)
        } else {
            Some(BootPhase::Start)
        },
        BootPhase::Network => Some(BootPhase::Start),
        BootPhase::Start => None,
    }
}

impl BootPlan {
    /// The kernel's command line, with the network's part for a networked VM.
    pub open spec fn command_line(&self) -> Seq<char> {
        match self.net {
            Some(net) => BOOT_ARGS@ + " "@ + net::boot_text(net.ip@),
            None => BOOT_ARGS@,
        }
    }

    /// The Firecracker process that the VM runs in.
    pub open spec fn is_launch(&self, action: Action) -> bool {
        is_launch(self.art.fc_bin@, self.work@, action)
    }

    /// Whether `op` is the operation of `phase`.
    pub open spec fn is_op(&self, phase: BootPhase, op: ApiOp) -> bool {
        match phase {
            BootPhase::Machine => op == ApiOp::ConfigureMachine(
                MachineConfig { vcpu_count: 1, mem_size_mib: self.mib },
            ),
            BootPhase::Source => op matches ApiOp::ConfigureBootSource(src) && src.kernel_image@
                == self.art.kernel@ && src.boot_args@ == self.command_line(),
            BootPhase::Disk => op matches ApiOp::ConfigureDrive(disk) && disk.drive_id@
                == "rootfs"@ && disk.path_on_host@ == self.art.rootfs@ && disk.is_root_device
                && !disk.is_read_only,
            BootPhase::Vsock => op matches ApiOp::ConfigureVsock(cfg) && cfg.guest_cid == GUEST_CID
                && cfg.uds_path@ == self.vsock_uds@,
            BootPhase::Network => op matches ApiOp::ConfigureNetwork(cfg) && (self.net matches Some(
                net,
            ) && cfg.iface_id@ == "eth0"@ && cfg.host_dev_name@ == net.tap@ && cfg.guest_mac@
                == net.mac@),
            BootPhase::Start => op is Boot,
        }
    }

    /// The action that starts the Firecracker process.
    pub fn launch(&self) -> (action: Action)
        ensures
            self.is_launch(action),
    {
        launch(&self.art.fc_bin, &self.work)
    }

    /// The operation of `phase`.
    pub fn op(&self, phase: BootPhase) -> (op: ApiOp)
        requires
            phase is Network ==> self.net is Some,
        ensures
            self.is_op(phase, op),
    {
        match phase {
            BootPhase::Machine => ApiOp::ConfigureMachine(
                MachineConfig { vcpu_count: 1, mem_size_mib: self.mib },
            ),
            BootPhase::Source => {
                let mut boot_args = BOOT_ARGS.to_owned();
                if let Some(net) = &self.net {
                    boot_args.append(" ");
                    boot_args.append(&boot_arg(net));
                }
                ApiOp::ConfigureBootSource(
                    BootSource { kernel_image: self.art.kernel.as_str().to_owned(), boot_args },
                )
            },
            BootPhase::Disk => ApiOp::ConfigureDrive(
                Drive {
                    drive_id: "rootfs".to_owned(),
                    path_on_host: self.art.rootfs.as_str().to_owned(),
                    is_root_device: true,
                    is_read_only: false,
                },
            ),
            BootPhase::Vsock => ApiOp::ConfigureVsock(
                VsockConfig { guest_cid: GUEST_CID, uds_path: self.vsock_uds.as_str().to_owned() },
            ),
            BootPhase::Network => {
                let (tap, mac) = match &self.net {
                    Some(net) => (net.tap.as_str().to_owned(), net.mac.as_str().to_owned()),
                    None => ("".to_owned(), "".to_owned()),
                };
                ApiOp::ConfigureNetwork(
                    NetworkConfig {
                        iface_id: "eth0".to_owned(),
                        host_dev_name: tap,
                        guest_mac: mac,
                    },
                )
            },
            BootPhase::Start => ApiOp::Boot,
        }
    }
}

/// Whether `action` starts the Firecracker process of the VM in `work`.
pub open spec fn is_launch(fc_bin: Seq<char>, work: Seq<char>, action: Action) -> bool {
    action matches Action::Launch { bin, api_sock, serial_log, timeout } && bin@ == fc_bin
        && api_sock@ == paths::under(work, "fc.sock"@) && serial_log@ == paths::under(
        work,
        "fc.log"@,
    ) && timeout@ == LAUNCH_SECS * 1_000_000_000
}

/// The action that starts the Firecracker process of the VM in `work`.
pub fn launch(fc_bin: &str, work: &str) -> (action: Action)
    ensures
        is_launch(fc_bin@, work@, action),
{
    Action::Launch {
        bin: fc_bin.to_owned(),
        api_sock: join(work, "fc.sock"),
        serial_log: join(work, "fc.log"),
        timeout: Duration::from_secs(LAUNCH_SECS),
    }
}

// ---------------------------------------------------------------------------
// Snapshots
// ---------------------------------------------------------------------------

/// How far a snapshot and its transfer have come.
#[derive(Clone, Copy, Debug, PartialEq, Eq, Structural)]
pub enum SnapshotPhase {
    /// The guest is being paused.
    Pause,
    /// The snapshot is being written.
    Write,
    /// The snapshot is being sent.
    Send,
    /// The snapshot's memory is being measured.
    Measure,
}

/// The files that are sent: memory and state of the VM in `work`, then `extra` files in `work`.
pub open spec fn sent_files(work: Seq<char>, extra: Seq<Seq<char>>) -> Seq<(Seq<char>, Seq<char>)> {
    (seq!["mem.snap"@, "state.snap"@] + extra).map_values(
        |name: Seq<char>| (name, paths::under(work, name)),
    )
}

/// Whether `action` is the one of `phase`, for the VM in `work` that moves to `addr` with the
/// `extra` files.
pub open spec fn is_snapshot_action(
    work: Seq<char>,
    addr: Seq<char>,
    extra: Seq<Seq<char>>,
    phase: SnapshotPhase,
    action: Action,
) -> bool {
    match phase {
        SnapshotPhase::Pause => action == Action::Control(ApiOp::Pause),
        SnapshotPhase::Write => action matches Action::Control(ApiOp::CreateSnapshot(target))
            && target.mem_file@ == paths::under(work, "mem.snap"@) && target.state_file@
            == paths::under(work, "state.snap"@),
        SnapshotPhase::Send => action matches Action::Send { addr: a, files } && a@ == addr
            && transfer::file_models(files@) == sent_files(work, extra),
        SnapshotPhase::Measure => action matches Action::Measure(path) && path@ == paths::under(
            work,
            "mem.snap"@,
        ),
    }
}

/// The file `name` of the VM in `work`.
fn outbound(work: &str, name: &str) -> (file: OutboundFile)
    ensures
        file.model() == (name@, paths::under(work@, name@)),
{
    OutboundFile { name: name.to_owned(), path: join(work, name) }
}

/// The action of `phase`.
pub fn snapshot_action(work: &str, addr: &str, extra: &Vec<&'static str>, phase: SnapshotPhase) -> (
action: Action)
    ensures
        is_snapshot_action(work@, addr@, text::literal_views(extra@), phase, action),
{
    match phase {
        SnapshotPhase::Pause => Action::Control(ApiOp::Pause),
        SnapshotPhase::Write => Action::Control(
            ApiOp::CreateSnapshot(
                SnapshotTarget {
                    mem_file: join(work, "mem.snap"),
                    state_file: join(work, "state.snap"),
                },
            ),
        ),
        SnapshotPhase::Send => {
            let mut files: Vec<OutboundFile> = Vec::new();
            files.push(outbound(work, "mem.snap"));
            files.push(outbound(work, "state.snap"));
            let ghost names = seq!["mem.snap"@, "state.snap"@] + text::literal_views(extra@);
            let ghost whole = sent_files(work@, text::literal_views(extra@));
            let mut i: usize = 0;
            proof {
                assert(transfer::file_models(files@) =~= whole.take(2));
            }
            while i < extra.len()
                invariant
                    i <= extra@.len(),
                    names == seq!["mem.snap"@, "state.snap"@] + text::literal_views(extra@),
                    whole == sent_files(work@, text::literal_views(extra@)),
                    transfer::file_models(files@) == whole.take(i + 2),
                decreases extra@.len() - i,
            {
                let ghost before = files@;
                files.push(outbound(work, extra[i]));
                proof {
                    assert(names[i + 2] == extra@[i as int]@);
                    assert(transfer::file_models(files@) =~= transfer::file_models(before).push(files@.last().model()));
                    assert(whole.take(i + 3) =~= whole.take(i + 2).push(whole[i + 2]));
                }
                i = i + 1;
            }
            proof {
                assert(whole.take(i + 2) =~= whole);
            }
            Action::Send { addr: addr.to_owned(), files }
        },
        SnapshotPhase::Measure => Action::Measure(join(work, "mem.snap")),
    }
}

/// What moving one VM took at its source.
#[derive(Clone, Copy, Debug, PartialEq, Eq, Structural)]
pub struct SourceTiming {
    /// From the pause until the snapshot was written.
    pub snapshot: Duration,
    /// From then until the transfer was complete.
    pub transfer: Duration,
    /// How many bytes the snapshot's memory has.
    pub bytes: u64,
}

/// When a snapshot began, when it was written and when it was sent.
#[derive(Clone, Copy, Debug, PartialEq, Eq, Structural)]
pub struct Clock {
    /// When the pause was asked for.
    pub begun: Duration,
    /// When the snapshot was written.
    pub written: Duration,
    /// When the transfer was complete.
    pub sent: Duration,
}

/// The time from `from` until `to`, or none where the clock went back.
pub open spec fn since(from: nat, to: nat) -> nat {
    if from <= to {
        (to - from) as nat
    } else {
        0
    }
}

impl Clock {
    /// Nothing has happened yet.
    pub fn new() -> (clock: Clock)
        ensures
            clock.begun@ == 0,
            clock.written@ == 0,
            clock.sent@ == 0,
    {
        Clock { begun: Duration::zero(), written: Duration::zero(), sent: Duration::zero() }
    }

    /// Whether `timing` is what the clock says, with a memory of `length` bytes.
    pub open spec fn says(&self, length: Option<u64>, timing: SourceTiming) -> bool {
        &&& timing.snapshot@ == since(self.begun@, self.written@)
        &&& timing.transfer@ == since(self.written@, self.sent@)
        &&& timing.bytes == match length {
            Some(n) => n,
            None => 0,
        }
    }

    /// What the clock says.
    pub fn timing(&self, length: Option<u64>) -> (timing: SourceTiming)
        ensures
            self.says(length, timing),
    {
        SourceTiming {
            snapshot: self.written.saturating_sub(self.begun),
            transfer: self.sent.saturating_sub(self.written),
            bytes: match length {
                Some(n) => n,
                None => 0,
            },
        }
    }
}

impl SourceTiming {
    /// How long the guest stood still.
    pub fn freeze(&self) -> (span: Duration)
        ensures
            self.snapshot@ + self.transfer@ <= crate::time::max_nanos() ==> span@ == self.snapshot@
                + self.transfer@,
            self.snapshot@ + self.transfer@ > crate::time::max_nanos() ==> span@
                == crate::time::max_nanos(),
    {
        self.snapshot.saturating_add(self.transfer)
    }
}

// ---------------------------------------------------------------------------
// Names
// ---------------------------------------------------------------------------

/// A name that no two runs of one process share: what it is for, the process and a sequence number.
pub open spec fn run_name(prefix: Seq<char>, pid: u32, seq: u64, suffix: Seq<char>) -> Seq<char> {
    prefix + text::decimal(pid as nat) + "-"@ + text::decimal(seq as nat) + suffix
}

/// The path under `temp` of a name that no two runs of one process share.
pub fn run_path(temp: &str, prefix: &str, pid: u32, seq: u64, suffix: &str) -> (path: String)
    ensures
        path@ == paths::under(temp@, run_name(prefix@, pid, seq, suffix@)),
{
    let mut name = prefix.to_owned();
    name.append(&decimal_of(pid as u64));
    name.append("-");
    name.append(&decimal_of(seq));
    name.append(suffix);
    join(temp, &name)
}

/// Two runs of one process never share a directory or a socket.
pub proof fn law_run_paths_are_distinct(
    temp: Seq<char>,
    prefix: Seq<char>,
    pid: u32,
    m: u64,
    n: u64,
    suffix: Seq<char>,
)
    requires
        m != n,
    ensures
        paths::under(temp, run_name(prefix, pid, m, suffix)) != paths::under(
            temp,
            run_name(prefix, pid, n, suffix),
        ),
{
    let (a, b) = (run_name(prefix, pid, m, suffix), run_name(prefix, pid, n, suffix));
    if paths::under(temp, a) == paths::under(temp, b) {
        paths::law_under_is_injective(temp, a, b);
        let from = (prefix + text::decimal(pid as nat) + "-"@).len() as int;
        assert(a.subrange(from, a.len() - suffix.len()) =~= text::decimal(m as nat));
        assert(b.subrange(from, b.len() - suffix.len()) =~= text::decimal(n as nat));
        text::lemma_decimal_injective(m as nat, n as nat);
    }
}

// ---------------------------------------------------------------------------
// What a boot and a snapshot are for
// ---------------------------------------------------------------------------

/// A VM is started last, once everything else of it has been set, each thing once: its size, what it
/// boots, its disk, its vsock device, and for a networked VM, and only for one, its interface.
pub proof fn law_boot_starts_last(networked: bool)
    ensures
        ({
            let second = following(BootPhase::Machine, networked)->0;
            let third = following(second, networked)->0;
            let fourth = following(third, networked)->0;
            let fifth = following(fourth, networked)->0;
            let set = Set::empty().insert(BootPhase::Machine).insert(second).insert(third).insert(
                fourth,
            );
            &&& set.contains(BootPhase::Machine)
            &&& set.contains(BootPhase::Source)
            &&& set.contains(BootPhase::Disk)
            &&& set.contains(BootPhase::Vsock)
            &&& if networked {
                fifth is Network && following(fifth, networked) == Some(BootPhase::Start)
            } else {
                fifth is Start
            }
            &&& following(BootPhase::Start, networked) is None
        }),
{
}

/// What a VM is booted from and with is what its plan says: it boots its kernel from its own root
/// disk, which it may write to, with its own memory; the guest is reached over the socket that its
/// vsock device was given, and a networked guest's interface is bound to its own tap under its own
/// MAC. Its command line ends in its own address.
pub proof fn law_boot_follows_its_plan(
    plan: BootPlan,
    machine: ApiOp,
    source: ApiOp,
    disk: ApiOp,
    vsock: ApiOp,
    network: ApiOp,
)
    requires
        plan.is_op(BootPhase::Machine, machine),
        plan.is_op(BootPhase::Source, source),
        plan.is_op(BootPhase::Disk, disk),
        plan.is_op(BootPhase::Vsock, vsock),
        plan.is_op(BootPhase::Network, network),
    ensures
        machine matches ApiOp::ConfigureMachine(cfg) && cfg.mem_size_mib == plan.mib
            && cfg.vcpu_count == 1,
        source matches ApiOp::ConfigureBootSource(src) && src.kernel_image@ == plan.art.kernel@ && (
        plan.net matches Some(net) ==> text::ends_with(src.boot_args@, net::boot_text(net.ip@)))
            && text::has_part(src.boot_args@, "init=/init"@) && text::has_part(
            src.boot_args@,
            "root=/dev/vda rw"@,
        ),
        disk matches ApiOp::ConfigureDrive(drive) && drive.path_on_host@ == plan.art.rootfs@
            && drive.is_root_device && !drive.is_read_only && drive.drive_id@ == "rootfs"@,
        vsock matches ApiOp::ConfigureVsock(cfg) && cfg.uds_path@ == plan.vsock_uds@
            && cfg.guest_cid > 2,
        network matches ApiOp::ConfigureNetwork(cfg) && (plan.net matches Some(net)
            && cfg.host_dev_name@ == net.tap@ && cfg.guest_mac@ == net.mac@),
{
    let line = plan.command_line();
    reveal_strlit("console=ttyS0 reboot=k panic=1 pci=off root=/dev/vda rw init=/init");
    reveal_strlit("init=/init");
    reveal_strlit("root=/dev/vda rw");
    assert(line.subrange(56, 66) =~= "init=/init"@);
    assert(text::part_at(line, "init=/init"@, 56));
    assert(line.subrange(39, 55) =~= "root=/dev/vda rw"@);
    assert(text::part_at(line, "root=/dev/vda rw"@, 39));
    if let Some(net) = plan.net {
        let own = net::boot_text(net.ip@);
        assert(line.skip(line.len() - own.len()) =~= own);
    }
}

/// A VM's files lie in its own directory, and no two of them are one file: the memory and the state
/// of its snapshot, its API socket and its console's log.
pub proof fn law_files_of_a_vm_are_distinct(
    fc_bin: Seq<char>,
    work: Seq<char>,
    addr: Seq<char>,
    extra: Seq<Seq<char>>,
    launched: Action,
    written: Action,
)
    requires
        is_launch(fc_bin, work, launched),
        is_snapshot_action(work, addr, extra, SnapshotPhase::Write, written),
    ensures
        launched matches Action::Launch { bin, api_sock, serial_log, .. } && {
            &&& bin@ == fc_bin
            &&& api_sock@ != serial_log@
            &&& text::starts_with(api_sock@, work)
            &&& text::starts_with(serial_log@, work)
            &&& written matches Action::Control(ApiOp::CreateSnapshot(target)) && {
                &&& target.mem_file@ != target.state_file@
                &&& target.mem_file@ != api_sock@ && target.mem_file@ != serial_log@
                &&& target.state_file@ != api_sock@ && target.state_file@ != serial_log@
                &&& text::starts_with(target.mem_file@, work)
                &&& text::starts_with(target.state_file@, work)
            }
        },
{
    reveal_strlit("fc.sock");
    reveal_strlit("fc.log");
    reveal_strlit("mem.snap");
    reveal_strlit("state.snap");
    let names = seq!["fc.sock"@, "fc.log"@, "mem.snap"@, "state.snap"@];
    assert("fc.sock"@ != "fc.log"@) by {
        assert("fc.sock"@.len() != "fc.log"@.len());
    }
    assert("mem.snap"@ != "state.snap"@) by {
        assert("mem.snap"@.len() != "state.snap"@.len());
    }
    assert forall|i: int, j: int| 0 <= i < j < 4 implies paths::under(work, #[trigger] names[i])
        != paths::under(work, #[trigger] names[j]) by {
        if paths::under(work, names[i]) == paths::under(work, names[j]) {
            paths::law_under_is_injective(work, names[i], names[j]);
            assert(names[i].len() == names[j].len());
        }
    }
    assert forall|i: int| 0 <= i < 4 implies text::starts_with(
        paths::under(work, #[trigger] names[i]),
        work,
    ) by {
        assert(paths::under(work, names[i]).take(work.len() as int) =~= work);
    }
    assert(names[0] == "fc.sock"@ && names[1] == "fc.log"@ && names[2] == "mem.snap"@ && names[3]
        == "state.snap"@);
}

/// A snapshot is sent where the move goes, whole: the file that the memory was written to and the one
/// that the state was written to are both among the files sent, and the one that is measured is the
/// one that the memory was written to.
pub proof fn law_snapshot_is_sent_whole(
    work: Seq<char>,
    addr: Seq<char>,
    extra: Seq<Seq<char>>,
    written: Action,
    sent: Action,
    measured: Action,
)
    requires
        is_snapshot_action(work, addr, extra, SnapshotPhase::Write, written),
        is_snapshot_action(work, addr, extra, SnapshotPhase::Send, sent),
        is_snapshot_action(work, addr, extra, SnapshotPhase::Measure, measured),
    ensures
        written matches Action::Control(ApiOp::CreateSnapshot(target)) && {
            &&& measured matches Action::Measure(path) && path@ == target.mem_file@
            &&& sent matches Action::Send { addr: a, files } && {
                &&& a@ == addr
                &&& files@.len() == 2 + extra.len()
                &&& exists|i: int|
                    0 <= i < files@.len() && (#[trigger] files@[i]).path@ == target.mem_file@
                &&& exists|j: int|
                    0 <= j < files@.len() && (#[trigger] files@[j]).path@ == target.state_file@
                &&& forall|i: int|
                    0 <= i < files@.len() ==> (#[trigger] files@[i]).path@ == paths::under(
                        work,
                        files@[i].name@,
                    )
            }
        },
{
    let files = sent->files@;
    let models = transfer::file_models(files);
    let whole = sent_files(work, extra);
    let names = seq!["mem.snap"@, "state.snap"@] + extra;
    assert(models.len() == files.len());
    assert forall|i: int| 0 <= i < files.len() implies (#[trigger] files[i]).path@ == paths::under(
        work,
        files[i].name@,
    ) by {
        assert(models[i] == files[i].model());
        assert(whole[i] == (names[i], paths::under(work, names[i])));
    }
    assert(models[0] == files[0].model());
    assert(models[1] == files[1].model());
    assert(whole[0].1 == paths::under(work, "mem.snap"@));
    assert(whole[1].1 == paths::under(work, "state.snap"@));
    assert(files[0].path@ == written->Control_0->CreateSnapshot_0.mem_file@);
    assert(files[1].path@ == written->Control_0->CreateSnapshot_0.state_file@);
}

/// The clock tells the time between two readings, in their order.
pub proof fn law_time_since(from: nat, to: nat)
    ensures
        from <= to ==> from + since(from, to) == to,
        to <= from ==> since(from, to) == 0,
{
}

/// Neither two processes nor two runs of one share a name.
pub proof fn law_run_names_tell_processes_apart(
    prefix: Seq<char>,
    a: (u32, u64),
    b: (u32, u64),
    suffix: Seq<char>,
)
    requires
        run_name(prefix, a.0, a.1, suffix) == run_name(prefix, b.0, b.1, suffix),
    ensures
        a == b,
{
    let (pa, sa) = (text::decimal(a.0 as nat), text::decimal(a.1 as nat));
    let (pb, sb) = (text::decimal(b.0 as nat), text::decimal(b.1 as nat));
    let name = run_name(prefix, a.0, a.1, suffix);
    let other = run_name(prefix, b.0, b.1, suffix);
    reveal_strlit("-");
    text::law_decimal_is_digits(a.0 as nat);
    text::law_decimal_is_digits(b.0 as nat);
    let rest_a = name.skip(prefix.len() as int);
    let rest_b = other.skip(prefix.len() as int);
    assert(rest_a =~= pa.push('-') + (sa + suffix));
    assert(rest_b =~= pb.push('-') + (sb + suffix));
    assert(!pa.contains('-')) by {
        assert forall|i: int| 0 <= i < pa.len() implies pa[i] != '-' by {
            assert('0' <= pa[i] <= '9');
        }
    }
    assert(!pb.contains('-')) by {
        assert forall|i: int| 0 <= i < pb.len() implies pb[i] != '-' by {
            assert('0' <= pb[i] <= '9');
        }
    }
    text::law_split_once_at_the_first(pa, '-', sa + suffix);
    text::law_split_once_at_the_first(pb, '-', sb + suffix);
    assert(pa == pb);
    text::lemma_decimal_injective(a.0 as nat, b.0 as nat);
    assert((sa + suffix).take(sa.len() as int) =~= sa);
    assert((sb + suffix).take(sb.len() as int) =~= sb);
    assert((sa + suffix) == (sb + suffix));
    assert(sa.len() == sb.len());
    text::lemma_decimal_injective(a.1 as nat, b.1 as nat);
}

/// The interface that a networked VM is given is the one that its command line configures.
pub proof fn law_interface_is_the_one_configured(plan: BootPlan, source: ApiOp, network: ApiOp)
    requires
        plan.net is Some,
        plan.is_op(BootPhase::Source, source),
        plan.is_op(BootPhase::Network, network),
    ensures
        ({
            &&& source matches ApiOp::ConfigureBootSource(src)
            &&& network matches ApiOp::ConfigureNetwork(cfg)
            &&& text::has_part(src.boot_args@, ":"@ + cfg.iface_id@ + ":"@)
        }),
{
    let ip = plan.net->0.ip@;
    let line = plan.command_line();
    reveal_strlit(":");
    reveal_strlit("eth0");
    reveal_strlit("::eth0:off");
    let part = ":"@ + "eth0"@ + ":"@;
    let n = line.len() as int;
    assert(line.subrange(n - 9, n - 3) =~= part);
    assert(text::part_at(line, part, n - 9));
}

/// Each closing does what it is named after, to what it names.
pub proof fn law_closings_do_what_they_say(closing: Closing)
    ensures
        match closing {
            Closing::CountMoved { freeze, bytes } => closing.act() == (Act::CountMoved {
                freeze: freeze@,
                bytes,
            }),
            Closing::CountFailed => closing.act() is CountFailed,
            Closing::Kill => closing.act() is Kill,
            Closing::StopPages => closing.act() is StopPages,
            Closing::DestroyTap(tap) => closing.act() == Act::DestroyTap(tap@),
            Closing::RemoveDir(dir) => closing.act() == Act::RemoveDir(dir@),
            Closing::RemoveFile(file) => closing.act() == Act::RemoveFile(file@),
        },
{
}

} // verus!
