//! Firecracker's API in full: configuration, lifecycle and snapshots of one VM.

use vstd::prelude::*;

use crate::hostd::api;
use crate::hostd::api::{bool_text, fault_message, quoted, ApiMethod, ApiRequest, NO_CONTENT};
use crate::text;
use crate::text::decimal_of;

verus! {

/// Why an operation failed.
#[derive(Debug, PartialEq, Eq)]
pub enum FirecrackerError {
    /// Firecracker refused it.
    Rejected {
        /// The operation.
        op: &'static str,
        /// Firecracker's reason.
        detail: String,
    },
    /// Firecracker could not be reached.
    Unreachable {
        /// The operation.
        op: &'static str,
        /// What went wrong.
        detail: String,
    },
}

/// The size of a VM.
#[derive(Clone, Debug, PartialEq, Eq)]
pub struct MachineConfig {
    /// How many vCPUs.
    pub vcpu_count: u32,
    /// How much memory, in MiB.
    pub mem_size_mib: u32,
}

/// What a VM boots.
#[derive(Clone, Debug, PartialEq, Eq)]
pub struct BootSource {
    /// The kernel's path.
    pub kernel_image: String,
    /// The kernel's command line.
    pub boot_args: String,
}

/// A VM's disk.
#[derive(Clone, Debug, PartialEq, Eq)]
pub struct Drive {
    /// The disk's name.
    pub drive_id: String,
    /// The image's path.
    pub path_on_host: String,
    /// Whether the guest boots from it.
    pub is_root_device: bool,
    /// Whether the guest may not write to it.
    pub is_read_only: bool,
}

/// A VM's vsock device.
#[derive(Clone, Debug, PartialEq, Eq)]
pub struct VsockConfig {
    /// The guest's context id.
    pub guest_cid: u32,
    /// The socket on the host.
    pub uds_path: String,
}

/// A VM's network interface.
#[derive(Clone, Debug, PartialEq, Eq)]
pub struct NetworkConfig {
    /// The interface's name.
    pub iface_id: String,
    /// The tap on the host.
    pub host_dev_name: String,
    /// The guest's MAC.
    pub guest_mac: String,
}

/// Where a snapshot's files are written. The VM must be paused.
#[derive(Clone, Debug, PartialEq, Eq)]
pub struct SnapshotTarget {
    /// The guest's memory.
    pub mem_file: String,
    /// The VM's state.
    pub state_file: String,
}

/// Where memory comes from when a snapshot is restored.
#[derive(Clone, Debug, PartialEq, Eq)]
pub enum MemBackend {
    /// From the memory file, at once.
    File {
        /// The file.
        mem_file: String,
    },
    /// From a page server, as the guest touches it.
    Uffd {
        /// The page server's socket.
        socket: String,
    },
}

/// What a snapshot is restored from.
#[derive(Clone, Debug, PartialEq, Eq)]
pub struct SnapshotSource {
    /// The VM's state.
    pub state_file: String,
    /// Where memory comes from.
    pub backend: MemBackend,
    /// Whether the VM runs on as soon as it is loaded.
    pub resume: bool,
}

/// An operation of the API.
#[derive(Debug, PartialEq, Eq)]
pub enum ApiOp {
    /// Set the VM's size.
    ConfigureMachine(MachineConfig),
    /// Set what it boots.
    ConfigureBootSource(BootSource),
    /// Attach a disk.
    ConfigureDrive(Drive),
    /// Attach the vsock device.
    ConfigureVsock(VsockConfig),
    /// Attach a network interface.
    ConfigureNetwork(NetworkConfig),
    /// Start the guest.
    Boot,
    /// Stop the vCPUs.
    Pause,
    /// Let the vCPUs run again.
    Resume,
    /// Stop the VM.
    Shutdown,
    /// Write a snapshot.
    CreateSnapshot(SnapshotTarget),
    /// Restore a snapshot.
    LoadSnapshot(SnapshotSource),
}

impl ApiOp {
    /// The operation's name.
    pub open spec fn name(&self) -> Seq<char> {
        match *self {
            ApiOp::ConfigureMachine(_) => "configure_machine"@,
            ApiOp::ConfigureBootSource(_) => "configure_boot_source"@,
            ApiOp::ConfigureDrive(_) => "configure_drive"@,
            ApiOp::ConfigureVsock(_) => "configure_vsock"@,
            ApiOp::ConfigureNetwork(_) => "configure_network"@,
            ApiOp::Boot => "boot"@,
            ApiOp::Pause => "pause"@,
            ApiOp::Resume => "resume"@,
            ApiOp::Shutdown => "shutdown"@,
            ApiOp::CreateSnapshot(_) => "create_snapshot"@,
            ApiOp::LoadSnapshot(_) => "load_snapshot"@,
        }
    }

    /// The operation's name.
    pub fn as_str(&self) -> (name: &'static str)
        ensures
            name@ == self.name(),
    {
        match self {
            ApiOp::ConfigureMachine(_) => "configure_machine",
            ApiOp::ConfigureBootSource(_) => "configure_boot_source",
            ApiOp::ConfigureDrive(_) => "configure_drive",
            ApiOp::ConfigureVsock(_) => "configure_vsock",
            ApiOp::ConfigureNetwork(_) => "configure_network",
            ApiOp::Boot => "boot",
            ApiOp::Pause => "pause",
            ApiOp::Resume => "resume",
            ApiOp::Shutdown => "shutdown",
            ApiOp::CreateSnapshot(_) => "create_snapshot",
            ApiOp::LoadSnapshot(_) => "load_snapshot",
        }
    }

    /// The method of the request that asks for the operation.
    pub open spec fn method(&self) -> ApiMethod {
        match *self {
            ApiOp::Pause => ApiMethod::Patch,
            ApiOp::Resume => ApiMethod::Patch,
            _ => ApiMethod::Put,
        }
    }

    /// The path of the request that asks for the operation.
    pub open spec fn path(&self) -> Seq<char> {
        match *self {
            ApiOp::ConfigureMachine(_) => "/machine-config"@,
            ApiOp::ConfigureBootSource(_) => "/boot-source"@,
            ApiOp::ConfigureDrive(drive) => "/drives/"@ + drive.drive_id@,
            ApiOp::ConfigureVsock(_) => "/vsock"@,
            ApiOp::ConfigureNetwork(net) => "/network-interfaces/"@ + net.iface_id@,
            ApiOp::Boot => "/actions"@,
            ApiOp::Pause => "/vm"@,
            ApiOp::Resume => "/vm"@,
            ApiOp::Shutdown => "/actions"@,
            ApiOp::CreateSnapshot(_) => "/snapshot/create"@,
            ApiOp::LoadSnapshot(_) => "/snapshot/load"@,
        }
    }

    /// The body of the request that asks for the operation: a JSON object with its members in the
    /// order of their names.
    pub open spec fn body(&self) -> Seq<char> {
        match *self {
            ApiOp::ConfigureMachine(cfg) => "{\"mem_size_mib\":"@ + text::decimal(
                cfg.mem_size_mib as nat,
            ) + ",\"vcpu_count\":"@ + text::decimal(cfg.vcpu_count as nat) + "}"@,
            ApiOp::ConfigureBootSource(src) => "{\"boot_args\":"@ + api::json_string(
                src.boot_args@,
            ) + ",\"kernel_image_path\":"@ + api::json_string(src.kernel_image@) + "}"@,
            ApiOp::ConfigureDrive(drive) => "{\"drive_id\":"@ + api::json_string(drive.drive_id@)
                + ",\"is_read_only\":"@ + api::json_bool(drive.is_read_only)
                + ",\"is_root_device\":"@ + api::json_bool(drive.is_root_device)
                + ",\"path_on_host\":"@ + api::json_string(drive.path_on_host@) + "}"@,
            ApiOp::ConfigureVsock(cfg) => "{\"guest_cid\":"@ + text::decimal(cfg.guest_cid as nat)
                + ",\"uds_path\":"@ + api::json_string(cfg.uds_path@) + "}"@,
            ApiOp::ConfigureNetwork(net) => "{\"guest_mac\":"@ + api::json_string(net.guest_mac@)
                + ",\"host_dev_name\":"@ + api::json_string(net.host_dev_name@)
                + ",\"iface_id\":"@ + api::json_string(net.iface_id@) + "}"@,
            ApiOp::Boot => "{\"action_type\":\"InstanceStart\"}"@,
            ApiOp::Pause => "{\"state\":\"Paused\"}"@,
            ApiOp::Resume => "{\"state\":\"Resumed\"}"@,
            ApiOp::Shutdown => "{\"action_type\":\"SendCtrlAltDel\"}"@,
            ApiOp::CreateSnapshot(target) => "{\"mem_file_path\":"@ + api::json_string(
                target.mem_file@,
            ) + ",\"snapshot_path\":"@ + api::json_string(target.state_file@)
                + ",\"snapshot_type\":\"Full\"}"@,
            ApiOp::LoadSnapshot(source) => "{\"mem_backend\":{\"backend_path\":"@
                + api::json_string(backend_path(source.backend)) + ",\"backend_type\":\""@
                + backend_type(source.backend) + "\"},\"resume_vm\":"@ + api::json_bool(
                source.resume,
            ) + ",\"snapshot_path\":"@ + api::json_string(source.state_file@) + "}"@,
        }
    }

    /// The request that asks for the operation.
    pub fn request(&self) -> (r: Result<ApiRequest, FirecrackerError>)
        ensures
            r matches Ok(request) && request.is(self.method(), self.path(), self.body()),
    {
        let method = match self {
            ApiOp::Pause => ApiMethod::Patch,
            ApiOp::Resume => ApiMethod::Patch,
            _ => ApiMethod::Put,
        };
        match self.body_text() {
            Ok(body) => Ok(ApiRequest { method, path: self.path_text(), body }),
            Err(detail) => Err(FirecrackerError::Unreachable { op: self.as_str(), detail }),
        }
    }

    /// The path of the request that asks for the operation.
    fn path_text(&self) -> (path: String)
        ensures
            path@ == self.path(),
    {
        match self {
            ApiOp::ConfigureMachine(_) => "/machine-config".to_owned(),
            ApiOp::ConfigureBootSource(_) => "/boot-source".to_owned(),
            ApiOp::ConfigureDrive(drive) => {
                let mut path = "/drives/".to_owned();
                path.append(&drive.drive_id);
                path
            },
            ApiOp::ConfigureVsock(_) => "/vsock".to_owned(),
            ApiOp::ConfigureNetwork(net) => {
                let mut path = "/network-interfaces/".to_owned();
                path.append(&net.iface_id);
                path
            },
            ApiOp::Boot => "/actions".to_owned(),
            ApiOp::Pause => "/vm".to_owned(),
            ApiOp::Resume => "/vm".to_owned(),
            ApiOp::Shutdown => "/actions".to_owned(),
            ApiOp::CreateSnapshot(_) => "/snapshot/create".to_owned(),
            ApiOp::LoadSnapshot(_) => "/snapshot/load".to_owned(),
        }
    }

    /// The body of the request that asks for the operation.
    fn body_text(&self) -> (r: Result<String, String>)
        ensures
            r matches Ok(body) && body@ == self.body(),
    {
        match self {
            ApiOp::ConfigureMachine(cfg) => {
                let mut body = "{\"mem_size_mib\":".to_owned();
                body.append(&decimal_of(cfg.mem_size_mib as u64));
                body.append(",\"vcpu_count\":");
                body.append(&decimal_of(cfg.vcpu_count as u64));
                body.append("}");
                Ok(body)
            },
            ApiOp::ConfigureBootSource(src) => {
                let mut body = "{\"boot_args\":".to_owned();
                body.append(&quoted(&src.boot_args)?);
                body.append(",\"kernel_image_path\":");
                body.append(&quoted(&src.kernel_image)?);
                body.append("}");
                Ok(body)
            },
            ApiOp::ConfigureDrive(drive) => {
                let mut body = "{\"drive_id\":".to_owned();
                body.append(&quoted(&drive.drive_id)?);
                body.append(",\"is_read_only\":");
                body.append(bool_text(drive.is_read_only));
                body.append(",\"is_root_device\":");
                body.append(bool_text(drive.is_root_device));
                body.append(",\"path_on_host\":");
                body.append(&quoted(&drive.path_on_host)?);
                body.append("}");
                Ok(body)
            },
            ApiOp::ConfigureVsock(cfg) => {
                let mut body = "{\"guest_cid\":".to_owned();
                body.append(&decimal_of(cfg.guest_cid as u64));
                body.append(",\"uds_path\":");
                body.append(&quoted(&cfg.uds_path)?);
                body.append("}");
                Ok(body)
            },
            ApiOp::ConfigureNetwork(net) => {
                let mut body = "{\"guest_mac\":".to_owned();
                body.append(&quoted(&net.guest_mac)?);
                body.append(",\"host_dev_name\":");
                body.append(&quoted(&net.host_dev_name)?);
                body.append(",\"iface_id\":");
                body.append(&quoted(&net.iface_id)?);
                body.append("}");
                Ok(body)
            },
            ApiOp::Boot => Ok("{\"action_type\":\"InstanceStart\"}".to_owned()),
            ApiOp::Pause => Ok("{\"state\":\"Paused\"}".to_owned()),
            ApiOp::Resume => Ok("{\"state\":\"Resumed\"}".to_owned()),
            ApiOp::Shutdown => Ok("{\"action_type\":\"SendCtrlAltDel\"}".to_owned()),
            ApiOp::CreateSnapshot(target) => {
                let mut body = "{\"mem_file_path\":".to_owned();
                body.append(&quoted(&target.mem_file)?);
                body.append(",\"snapshot_path\":");
                body.append(&quoted(&target.state_file)?);
                body.append(",\"snapshot_type\":\"Full\"}");
                Ok(body)
            },
            ApiOp::LoadSnapshot(source) => {
                let (kind, path) = match &source.backend {
                    MemBackend::File { mem_file } => ("File", mem_file),
                    MemBackend::Uffd { socket } => ("Uffd", socket),
                };
                let mut body = "{\"mem_backend\":{\"backend_path\":".to_owned();
                body.append(&quoted(path)?);
                body.append(",\"backend_type\":\"");
                body.append(kind);
                body.append("\"},\"resume_vm\":");
                body.append(bool_text(source.resume));
                body.append(",\"snapshot_path\":");
                body.append(&quoted(&source.state_file)?);
                body.append("}");
                Ok(body)
            },
        }
    }
}

/// The path that a memory backend names.
pub open spec fn backend_path(backend: MemBackend) -> Seq<char> {
    match backend {
        MemBackend::File { mem_file } => mem_file@,
        MemBackend::Uffd { socket } => socket@,
    }
}

/// The API's name for a memory backend.
pub open spec fn backend_type(backend: MemBackend) -> Seq<char> {
    match backend {
        MemBackend::File { .. } => "File"@,
        MemBackend::Uffd { .. } => "Uffd"@,
    }
}

/// What drives one VM's Firecracker process.
pub trait FirecrackerApi: Sized {
    /// Every operation so far and how it went, oldest first.
    ///
    /// This is ghost state. An implementation that is not verified cannot define it; the clauses
    /// below then say what it is relied on to do.
    closed spec fn log(&self) -> Seq<(ApiOp, Result<(), FirecrackerError>)> {
        arbitrary()
    }

    /// Carries out one operation.
    fn perform(&mut self, op: ApiOp) -> (r: Result<(), FirecrackerError>)
        ensures
            final(self).log() == old(self).log().push((op, r)),
    ;

    /// Sets the VM's size.
    fn configure_machine(&mut self, cfg: MachineConfig) -> (r: Result<(), FirecrackerError>)
        ensures
            final(self).log() == old(self).log().push((ApiOp::ConfigureMachine(cfg), r)),
    {
        self.perform(ApiOp::ConfigureMachine(cfg))
    }

    /// Sets what the VM boots.
    fn configure_boot_source(&mut self, src: BootSource) -> (r: Result<(), FirecrackerError>)
        ensures
            final(self).log() == old(self).log().push((ApiOp::ConfigureBootSource(src), r)),
    {
        self.perform(ApiOp::ConfigureBootSource(src))
    }

    /// Attaches a disk.
    fn configure_drive(&mut self, drive: Drive) -> (r: Result<(), FirecrackerError>)
        ensures
            final(self).log() == old(self).log().push((ApiOp::ConfigureDrive(drive), r)),
    {
        self.perform(ApiOp::ConfigureDrive(drive))
    }

    /// Attaches the vsock device.
    fn configure_vsock(&mut self, cfg: VsockConfig) -> (r: Result<(), FirecrackerError>)
        ensures
            final(self).log() == old(self).log().push((ApiOp::ConfigureVsock(cfg), r)),
    {
        self.perform(ApiOp::ConfigureVsock(cfg))
    }

    /// Attaches a network interface.
    fn configure_network(&mut self, net: NetworkConfig) -> (r: Result<(), FirecrackerError>)
        ensures
            final(self).log() == old(self).log().push((ApiOp::ConfigureNetwork(net), r)),
    {
        self.perform(ApiOp::ConfigureNetwork(net))
    }

    /// Starts the guest.
    fn boot(&mut self) -> (r: Result<(), FirecrackerError>)
        ensures
            final(self).log() == old(self).log().push((ApiOp::Boot, r)),
    {
        self.perform(ApiOp::Boot)
    }

    /// Stops the vCPUs.
    fn pause(&mut self) -> (r: Result<(), FirecrackerError>)
        ensures
            final(self).log() == old(self).log().push((ApiOp::Pause, r)),
    {
        self.perform(ApiOp::Pause)
    }

    /// Lets the vCPUs run again.
    fn resume(&mut self) -> (r: Result<(), FirecrackerError>)
        ensures
            final(self).log() == old(self).log().push((ApiOp::Resume, r)),
    {
        self.perform(ApiOp::Resume)
    }

    /// Stops the VM.
    fn shutdown(&mut self) -> (r: Result<(), FirecrackerError>)
        ensures
            final(self).log() == old(self).log().push((ApiOp::Shutdown, r)),
    {
        self.perform(ApiOp::Shutdown)
    }

    /// Snapshots the paused VM.
    fn create_snapshot(&mut self, target: SnapshotTarget) -> (r: Result<(), FirecrackerError>)
        ensures
            final(self).log() == old(self).log().push((ApiOp::CreateSnapshot(target), r)),
    {
        self.perform(ApiOp::CreateSnapshot(target))
    }

    /// Restores the VM from a snapshot.
    fn load_snapshot(&mut self, source: SnapshotSource) -> (r: Result<(), FirecrackerError>)
        ensures
            final(self).log() == old(self).log().push((ApiOp::LoadSnapshot(source), r)),
    {
        self.perform(ApiOp::LoadSnapshot(source))
    }
}

/// The client of one VM's API socket: what it sends, and what it makes of an answer.
#[derive(Clone, Debug, PartialEq, Eq)]
pub struct Firecracker {
    socket: String,
}

impl Firecracker {
    /// The socket's path.
    pub closed spec fn path(&self) -> Seq<char> {
        self.socket@
    }

    /// A client of the API socket at `socket`.
    pub fn new(socket: &str) -> (fc: Firecracker)
        ensures
            fc.path() == socket@,
    {
        Firecracker { socket: socket.to_owned() }
    }

    /// The socket's path.
    pub fn socket(&self) -> (path: &str)
        ensures
            path@ == self.path(),
    {
        self.socket.as_str()
    }

    /// What an answer means for an operation: success where there is no content, and else a
    /// refusal with Firecracker's reason.
    pub fn outcome(op: &ApiOp, status: u16, body: &[u8]) -> (r: Result<(), FirecrackerError>)
        ensures
            match r {
                Ok(_) => status == NO_CONTENT,
                Err(e) => {
                    &&& status != NO_CONTENT
                    &&& e matches FirecrackerError::Rejected { op: o, detail } && o@ == op.name()
                        && detail@ == api::fault_text(
                        api::json_member_text(body@, "fault_message"@),
                        api::lossy_utf8(body@),
                        body@.len() == 0,
                        status,
                    )
                },
            },
    {
        if status == NO_CONTENT {
            return Ok(());
        }
        Err(FirecrackerError::Rejected { op: op.as_str(), detail: fault_message(body, status) })
    }

    /// What the failure to reach Firecracker means for an operation.
    pub fn unreachable(op: &ApiOp, detail: String) -> (e: FirecrackerError)
        ensures
            e matches FirecrackerError::Unreachable { op: o, detail: d } && o@ == op.name() && d@
                == detail@,
    {
        FirecrackerError::Unreachable { op: op.as_str(), detail }
    }
}

/// A snapshot is loaded by the name that it was written under: Firecracker is told of the state file
/// in the same words when it writes it and when it loads it, and the memory is told apart from it both
/// times.
pub proof fn law_state_file_has_one_name(target: SnapshotTarget, source: SnapshotSource)
    requires
        source.state_file@ == target.state_file@,
    ensures
        text::has_part(
            ApiOp::CreateSnapshot(target).body(),
            ",\"snapshot_path\":"@ + api::json_string(target.state_file@),
        ),
        text::has_part(
            ApiOp::LoadSnapshot(source).body(),
            ",\"snapshot_path\":"@ + api::json_string(target.state_file@),
        ),
        text::starts_with(
            ApiOp::CreateSnapshot(target).body(),
            "{\"mem_file_path\":"@ + api::json_string(target.mem_file@),
        ),
        text::starts_with(
            ApiOp::LoadSnapshot(source).body(),
            "{\"mem_backend\":{\"backend_path\":"@ + api::json_string(
                match source.backend {
                    MemBackend::File { mem_file } => mem_file@,
                    MemBackend::Uffd { socket } => socket@,
                },
            ),
        ),
{
    let state = ",\"snapshot_path\":"@ + api::json_string(target.state_file@);
    let written = ApiOp::CreateSnapshot(target).body();
    let memory = "{\"mem_file_path\":"@ + api::json_string(target.mem_file@);
    text::law_parts_are_found(memory, state, ",\"snapshot_type\":\"Full\"}"@);
    assert(written =~= memory + state + ",\"snapshot_type\":\"Full\"}"@);
    assert(written =~= memory + (state + ",\"snapshot_type\":\"Full\"}"@));
    text::law_parts_are_found(
        Seq::empty(),
        memory,
        state + ",\"snapshot_type\":\"Full\"}"@,
    );
    let loaded = ApiOp::LoadSnapshot(source).body();
    let backend = "{\"mem_backend\":{\"backend_path\":"@ + api::json_string(
        backend_path(source.backend),
    );
    let between = ",\"backend_type\":\""@ + backend_type(source.backend) + "\"},\"resume_vm\":"@
        + api::json_bool(source.resume);
    text::law_parts_are_found(backend + between, state, "}"@);
    assert(loaded =~= backend + between + state + "}"@);
    assert(loaded =~= backend + (between + state + "}"@));
    text::law_parts_are_found(Seq::empty(), backend, between + state + "}"@);
}

/// Pausing and resuming are asked of the same place in the same way and say different things, and so
/// do starting and shutting down.
pub proof fn law_opposites_differ_in_what_they_say()
    ensures
        ApiOp::Pause.path() == ApiOp::Resume.path(),
        ApiOp::Pause.method() == ApiOp::Resume.method(),
        ApiOp::Pause.body() != ApiOp::Resume.body(),
        ApiOp::Boot.path() == ApiOp::Shutdown.path(),
        ApiOp::Boot.method() == ApiOp::Shutdown.method(),
        ApiOp::Boot.body() != ApiOp::Shutdown.body(),
        text::has_part(ApiOp::Pause.body(), "Paused"@),
        text::has_part(ApiOp::Resume.body(), "Resumed"@),
        text::has_part(ApiOp::Boot.body(), "InstanceStart"@),
{
    reveal_strlit("{\"state\":\"Paused\"}");
    reveal_strlit("{\"state\":\"Resumed\"}");
    reveal_strlit("{\"action_type\":\"InstanceStart\"}");
    reveal_strlit("{\"action_type\":\"SendCtrlAltDel\"}");
    reveal_strlit("Paused");
    reveal_strlit("Resumed");
    reveal_strlit("InstanceStart");
    assert(ApiOp::Pause.body().subrange(10, 16) =~= "Paused"@);
    assert(text::part_at(ApiOp::Pause.body(), "Paused"@, 10));
    assert(ApiOp::Resume.body().subrange(10, 17) =~= "Resumed"@);
    assert(text::part_at(ApiOp::Resume.body(), "Resumed"@, 10));
    assert(ApiOp::Boot.body().subrange(16, 29) =~= "InstanceStart"@);
    assert(text::part_at(ApiOp::Boot.body(), "InstanceStart"@, 16));
    assert(ApiOp::Pause.body().len() != ApiOp::Resume.body().len());
    assert(ApiOp::Boot.body().len() != ApiOp::Shutdown.body().len());
}

/// What a drive and an interface are asked for under is their own name.
pub proof fn law_devices_have_paths_of_their_own(a: Drive, b: Drive, x: NetworkConfig, y: NetworkConfig)
    ensures
        ApiOp::ConfigureDrive(a).path() == ApiOp::ConfigureDrive(b).path() ==> a.drive_id@
            == b.drive_id@,
        ApiOp::ConfigureNetwork(x).path() == ApiOp::ConfigureNetwork(y).path() ==> x.iface_id@
            == y.iface_id@,
        text::ends_with(ApiOp::ConfigureDrive(a).path(), a.drive_id@),
        text::ends_with(ApiOp::ConfigureNetwork(x).path(), x.iface_id@),
{
    text::law_parts_are_found("/drives/"@, a.drive_id@, Seq::empty());
    text::law_parts_are_found("/network-interfaces/"@, x.iface_id@, Seq::empty());
    let (da, db) = (ApiOp::ConfigureDrive(a).path(), ApiOp::ConfigureDrive(b).path());
    let n = "/drives/"@.len() as int;
    assert(da.skip(n) =~= a.drive_id@);
    assert(db.skip(n) =~= b.drive_id@);
    let (nx, ny) = (ApiOp::ConfigureNetwork(x).path(), ApiOp::ConfigureNetwork(y).path());
    let m = "/network-interfaces/"@.len() as int;
    assert(nx.skip(m) =~= x.iface_id@);
    assert(ny.skip(m) =~= y.iface_id@);
}

/// What is asked of Firecracker carries every value that it was given, under the value's own name.
pub proof fn law_requests_carry_their_values(
    machine: MachineConfig,
    source: BootSource,
    drive: Drive,
    vsock: VsockConfig,
    net: NetworkConfig,
)
    ensures
        text::starts_with(
            ApiOp::ConfigureMachine(machine).body(),
            "{\"mem_size_mib\":"@ + text::decimal(machine.mem_size_mib as nat) + ","@,
        ),
        text::ends_with(
            ApiOp::ConfigureMachine(machine).body(),
            ",\"vcpu_count\":"@ + text::decimal(machine.vcpu_count as nat) + "}"@,
        ),
        text::starts_with(
            ApiOp::ConfigureBootSource(source).body(),
            "{\"boot_args\":"@ + api::json_string(source.boot_args@),
        ),
        text::ends_with(
            ApiOp::ConfigureBootSource(source).body(),
            ",\"kernel_image_path\":"@ + api::json_string(source.kernel_image@) + "}"@,
        ),
        text::starts_with(
            ApiOp::ConfigureDrive(drive).body(),
            "{\"drive_id\":"@ + api::json_string(drive.drive_id@) + ",\"is_read_only\":"@
                + api::json_bool(drive.is_read_only),
        ),
        text::ends_with(
            ApiOp::ConfigureDrive(drive).body(),
            ",\"is_root_device\":"@ + api::json_bool(drive.is_root_device) + ",\"path_on_host\":"@
                + api::json_string(drive.path_on_host@) + "}"@,
        ),
        text::starts_with(
            ApiOp::ConfigureVsock(vsock).body(),
            "{\"guest_cid\":"@ + text::decimal(vsock.guest_cid as nat),
        ),
        text::ends_with(
            ApiOp::ConfigureVsock(vsock).body(),
            ",\"uds_path\":"@ + api::json_string(vsock.uds_path@) + "}"@,
        ),
        text::starts_with(
            ApiOp::ConfigureNetwork(net).body(),
            "{\"guest_mac\":"@ + api::json_string(net.guest_mac@) + ",\"host_dev_name\":"@
                + api::json_string(net.host_dev_name@),
        ),
        text::ends_with(
            ApiOp::ConfigureNetwork(net).body(),
            ",\"iface_id\":"@ + api::json_string(net.iface_id@) + "}"@,
        ),
{
    let a = "{\"mem_size_mib\":"@ + text::decimal(machine.mem_size_mib as nat);
    let b = ",\"vcpu_count\":"@ + text::decimal(machine.vcpu_count as nat) + "}"@;
    lemma_two_halves(ApiOp::ConfigureMachine(machine).body(), a, b);
    reveal_strlit(",");
    reveal_strlit(",\"vcpu_count\":");
    let m = ApiOp::ConfigureMachine(machine).body();
    assert(m.take(a.len() as int + 1) =~= a + ","@);
    lemma_two_halves(
        ApiOp::ConfigureBootSource(source).body(),
        "{\"boot_args\":"@ + api::json_string(source.boot_args@),
        ",\"kernel_image_path\":"@ + api::json_string(source.kernel_image@) + "}"@,
    );
    lemma_two_halves(
        ApiOp::ConfigureDrive(drive).body(),
        "{\"drive_id\":"@ + api::json_string(drive.drive_id@) + ",\"is_read_only\":"@
            + api::json_bool(drive.is_read_only),
        ",\"is_root_device\":"@ + api::json_bool(drive.is_root_device) + ",\"path_on_host\":"@
            + api::json_string(drive.path_on_host@) + "}"@,
    );
    lemma_two_halves(
        ApiOp::ConfigureVsock(vsock).body(),
        "{\"guest_cid\":"@ + text::decimal(vsock.guest_cid as nat),
        ",\"uds_path\":"@ + api::json_string(vsock.uds_path@) + "}"@,
    );
    lemma_two_halves(
        ApiOp::ConfigureNetwork(net).body(),
        "{\"guest_mac\":"@ + api::json_string(net.guest_mac@) + ",\"host_dev_name\":"@
            + api::json_string(net.host_dev_name@),
        ",\"iface_id\":"@ + api::json_string(net.iface_id@) + "}"@,
    );
}

/// A text begins with its first half and ends with its second.
proof fn lemma_two_halves(whole: Seq<char>, a: Seq<char>, b: Seq<char>)
    requires
        whole =~= a + b,
    ensures
        text::starts_with(whole, a),
        text::ends_with(whole, b),
{
    text::law_parts_are_found(Seq::empty(), a, b);
    text::law_parts_are_found(a, b, Seq::empty());
}

/// Which operation it is, as a number.
pub open spec fn op_number(op: ApiOp) -> int {
    match op {
        ApiOp::ConfigureMachine(_) => 0,
        ApiOp::ConfigureBootSource(_) => 1,
        ApiOp::ConfigureDrive(_) => 2,
        ApiOp::ConfigureVsock(_) => 3,
        ApiOp::ConfigureNetwork(_) => 4,
        ApiOp::Boot => 5,
        ApiOp::Pause => 6,
        ApiOp::Resume => 7,
        ApiOp::Shutdown => 8,
        ApiOp::CreateSnapshot(_) => 9,
        ApiOp::LoadSnapshot(_) => 10,
    }
}

/// Every operation has a name of its own.
pub proof fn law_operations_have_names_of_their_own(a: ApiOp, b: ApiOp)
    ensures
        a.name() == b.name() ==> op_number(a) == op_number(b),
{
    reveal_strlit("configure_machine");
    reveal_strlit("configure_boot_source");
    reveal_strlit("configure_drive");
    reveal_strlit("configure_vsock");
    reveal_strlit("configure_network");
    reveal_strlit("boot");
    reveal_strlit("pause");
    reveal_strlit("resume");
    reveal_strlit("shutdown");
    reveal_strlit("create_snapshot");
    reveal_strlit("load_snapshot");
    assert(a.name().len() == b.name().len() && a.name()[10] == b.name()[10] ==> op_number(a)
        == op_number(b));
}

/// A snapshot is created and loaded at places that say so.
pub proof fn law_snapshot_paths_say_so(target: SnapshotTarget, source: SnapshotSource)
    ensures
        text::ends_with(ApiOp::CreateSnapshot(target).path(), "/create"@),
        text::ends_with(ApiOp::LoadSnapshot(source).path(), "/load"@),
        text::starts_with(ApiOp::CreateSnapshot(target).name(), "create"@),
        text::starts_with(ApiOp::LoadSnapshot(source).name(), "load"@),
        ApiOp::CreateSnapshot(target).method() is Put,
        ApiOp::LoadSnapshot(source).method() is Put,
{
    reveal_strlit("/snapshot/create");
    reveal_strlit("/snapshot/load");
    reveal_strlit("/create");
    reveal_strlit("/load");
    reveal_strlit("create_snapshot");
    reveal_strlit("load_snapshot");
    reveal_strlit("create");
    reveal_strlit("load");
    assert("/snapshot/create"@.skip(9) =~= "/create"@);
    assert("/snapshot/load"@.skip(9) =~= "/load"@);
    assert("create_snapshot"@.take(6) =~= "create"@);
    assert("load_snapshot"@.take(4) =~= "load"@);
}

} // verus!
