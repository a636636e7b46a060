//! The measurement of the freeze window on one host.
//!
//! One VM is handed on from Firecracker process to Firecracker process: each cycle snapshots the VM
//! that runs and restores it lazily in a new process. What is measured is how long the guest stands
//! still, from the pause until it runs on. All that can be prepared is prepared before the pause.

use vstd::prelude::*;

use crate::hostd::firecracker::{
    ApiOp, BootSource, Drive, MachineConfig, MemBackend, SnapshotSource, SnapshotTarget,
};
use crate::hostd::migrate::GUEST_MIB;
use crate::hostd::steps;
use crate::paths;
use crate::paths::join;
use crate::text;
use crate::text::{contains_text, decimal_of};
use crate::time::Duration;

verus! {

/// How many cycles there are unless something else is asked for.
pub const DEFAULT_CYCLES: usize = 20;

/// How long the VM settles after a cycle unless something else is asked for, in milliseconds.
pub const DEFAULT_SETTLE_MS: u64 = 1000;

/// The kernel's command line of the VM that is handed on.
pub const BENCH_BOOT_ARGS: &'static str =
    "console=ttyS0 reboot=k panic=1 pci=off root=/dev/vda ro";

/// What the VM's console shows once it has reached userspace.
pub const USERSPACE_MARK: &'static str = "login";

/// How long the VM has to reach userspace, in seconds.
pub const USERSPACE_SECS: u64 = 20;

/// How long the wait lasts between two looks at the console, in milliseconds.
pub const CONSOLE_LOOK_MS: u64 = 200;

// ---------------------------------------------------------------------------
// The first VM
// ---------------------------------------------------------------------------

/// Whether `ops` boot the first VM from `kernel` and `rootfs`, in that order.
pub open spec fn boots_initial(ops: Seq<ApiOp>, kernel: Seq<char>, rootfs: Seq<char>) -> bool {
    &&& ops.len() == 4
    &&& ops[0] == ApiOp::ConfigureMachine(MachineConfig { vcpu_count: 1, mem_size_mib: GUEST_MIB })
    &&& (ops[1] matches ApiOp::ConfigureBootSource(source) && source.kernel_image@ == kernel
        && source.boot_args@ == BENCH_BOOT_ARGS@)
    &&& (ops[2] matches ApiOp::ConfigureDrive(drive) && drive.drive_id@ == "rootfs"@
        && drive.path_on_host@ == rootfs && drive.is_root_device && drive.is_read_only)
    &&& ops[3] == ApiOp::Boot
}

/// The operations that boot the first VM, in their order.
pub fn boot_initial(kernel: &str, rootfs: &str) -> (ops: Vec<ApiOp>)
    ensures
        boots_initial(ops@, kernel@, rootfs@),
{
    let mut ops: Vec<ApiOp> = Vec::new();
    ops.push(ApiOp::ConfigureMachine(MachineConfig { vcpu_count: 1, mem_size_mib: GUEST_MIB }));
    ops.push(
        ApiOp::ConfigureBootSource(
            BootSource {
                kernel_image: kernel.to_owned(),
                boot_args: BENCH_BOOT_ARGS.to_owned(),
            },
        ),
    );
    ops.push(
        ApiOp::ConfigureDrive(
            Drive {
                drive_id: "rootfs".to_owned(),
                path_on_host: rootfs.to_owned(),
                is_root_device: true,
                is_read_only: true,
            },
        ),
    );
    ops.push(ApiOp::Boot);
    ops
}

/// What the wait for the VM to reach userspace does next.
#[derive(Clone, Copy, Debug, PartialEq, Eq)]
pub enum ConsoleWait {
    /// It is there.
    Up,
    /// Time is up.
    GiveUp,
    /// Look again after this long.
    Again(Duration),
}

/// Whether `found` is what a look at the console makes of it. What it shows counts only while there
/// is time.
pub open spec fn console_shows(
    console: Option<String>,
    needle: Seq<char>,
    now: nat,
    timeout: nat,
    found: ConsoleWait,
) -> bool {
    if now >= timeout {
        found is GiveUp
    } else {
        match console {
            Some(shown) if text::has_part(shown@, needle) => found is Up,
            _ => found matches ConsoleWait::Again(span) && span@ == CONSOLE_LOOK_MS * 1_000_000,
        }
    }
}

/// What is made of a look at the console that began `now` after the wait did: `console` is what it
/// has shown, where that could be read.
pub fn wait_for_serial(
    console: Option<String>,
    needle: &str,
    now: Duration,
    timeout: Duration,
) -> (found: ConsoleWait)
    ensures
        console_shows(console, needle@, now@, timeout@, found),
{
    if !now.shorter_than(&timeout) {
        return ConsoleWait::GiveUp;
    }
    if let Some(shown) = console {
        if contains_text(&shown, needle) {
            return ConsoleWait::Up;
        }
    }
    ConsoleWait::Again(Duration::from_millis(CONSOLE_LOOK_MS))
}

// ---------------------------------------------------------------------------
// The cycles
// ---------------------------------------------------------------------------

/// How far a cycle has come.
#[derive(Clone, Copy, Debug, PartialEq, Eq, Structural)]
pub enum BenchPhase {
    /// The page server's socket is being bound.
    Bind,
    /// The page server is being started.
    Serve,
    /// The target's process is being started.
    Launch,
    /// The VM that runs is being paused.
    Pause,
    /// Its snapshot is being written.
    Write,
    /// The snapshot is being loaded in the target, and the guest runs on.
    Load,
    /// The snapshot's memory is being measured.
    Measure,
    /// The VM that ran is being retired: the target runs in its place.
    Retire,
    /// The guest settles.
    Settle,
    /// All cycles are over and the last VM is being retired.
    RetireLast,
}

/// Something to do. What fails ends the measurement.
#[derive(Debug, PartialEq, Eq)]
pub enum BenchAction {
    /// Bind the page server's socket.
    Bind(String),
    /// Start the page server over this memory file.
    Serve(String),
    /// Start the target's process.
    Launch {
        /// Its API socket.
        api_sock: String,
        /// Where the guest's console goes.
        serial_log: String,
    },
    /// Pause the VM that runs.
    Pause,
    /// Write its snapshot.
    Write(SnapshotTarget),
    /// Load the snapshot in the target.
    Load(SnapshotSource),
    /// Look how long a file is.
    Measure(String),
    /// Retire the VM that ran.
    Retire,
    /// Do nothing for a while.
    Settle(Duration),
    /// Retire the last VM.
    RetireLast,
}

/// What a measurement has found.
#[derive(Debug, PartialEq, Eq)]
pub struct BenchResult {
    /// How long the guest stood still in each cycle.
    pub freezes: Vec<Duration>,
    /// How many bytes the snapshot's memory has.
    pub bytes: u64,
}

/// What a measurement does next.
#[derive(Debug, PartialEq, Eq)]
pub enum BenchStep {
    /// Perform this.
    Perform(BenchRun, BenchAction),
    /// It is over.
    Finish(BenchResult),
}

/// The name of a cycle's file.
pub open spec fn cycle_name(prefix: Seq<char>, cycle: nat, suffix: Seq<char>) -> Seq<char> {
    prefix + text::decimal(cycle) + suffix
}

/// The path under `dir` of a cycle's file.
fn cycle_path(dir: &str, prefix: &str, cycle: usize, suffix: &str) -> (path: String)
    ensures
        path@ == paths::under(dir@, cycle_name(prefix@, cycle as nat, suffix@)),
{
    let mut name = prefix.to_owned();
    name.append(&decimal_of(cycle as u64));
    name.append(suffix);
    join(dir, &name)
}

/// A measurement.
#[derive(Debug, PartialEq, Eq)]
pub struct BenchRun {
    /// Where the files go.
    pub dir: String,
    /// How many cycles there are to be.
    pub cycles: usize,
    /// How long the guest settles after a cycle.
    pub settle: Duration,
    /// The present cycle, counted from zero.
    pub cycle: usize,
    /// How far it has come.
    pub phase: BenchPhase,
    /// When the guest was last paused.
    pub begun: Duration,
    /// How long the guest stood still in each cycle.
    pub freezes: Vec<Duration>,
    /// How many bytes the snapshot's memory has, once that is known.
    pub bytes: u64,
}

impl BenchRun {
    /// The path of a file of the present cycle.
    pub open spec fn file(&self, prefix: Seq<char>, suffix: Seq<char>) -> Seq<char> {
        paths::under(self.dir@, cycle_name(prefix, self.cycle as nat, suffix))
    }

    /// Whether `action` is the one of the run's phase.
    pub open spec fn is_action(&self, action: BenchAction) -> bool {
        match self.phase {
            BenchPhase::Bind => action matches BenchAction::Bind(path) && path@ == self.file(
                "uffd-"@,
                ".sock"@,
            ),
            BenchPhase::Serve => action matches BenchAction::Serve(path) && path@ == self.file(
                "mem-"@,
                ".snap"@,
            ),
            BenchPhase::Launch => action matches BenchAction::Launch { api_sock, serial_log }
                && api_sock@ == self.file("fc-"@, ".sock"@) && serial_log@ == self.file(
                "fc-"@,
                ".log"@,
            ),
            BenchPhase::Pause => action is Pause,
            BenchPhase::Write => action matches BenchAction::Write(target) && target.mem_file@
                == self.file("mem-"@, ".snap"@) && target.state_file@ == self.file(
                "state-"@,
                ".snap"@,
            ),
            BenchPhase::Load => action matches BenchAction::Load(source) && source.state_file@
                == self.file("state-"@, ".snap"@) && (source.backend matches MemBackend::Uffd {
                socket,
            } && socket@ == self.file("uffd-"@, ".sock"@)) && source.resume,
            BenchPhase::Measure => action matches BenchAction::Measure(path) && path@ == self.file(
                "mem-"@,
                ".snap"@,
            ),
            BenchPhase::Retire => action is Retire,
            BenchPhase::Settle => action matches BenchAction::Settle(span) && span == self.settle,
            BenchPhase::RetireLast => action is RetireLast,
        }
    }

    /// The phase after the present one, and the cycle that it belongs to. The memory is measured
    /// once.
    pub open spec fn following(&self) -> (usize, BenchPhase) {
        match self.phase {
            BenchPhase::Bind => (self.cycle, BenchPhase::Serve),
            BenchPhase::Serve => (self.cycle, BenchPhase::Launch),
            BenchPhase::Launch => (self.cycle, BenchPhase::Pause),
            BenchPhase::Pause => (self.cycle, BenchPhase::Write),
            BenchPhase::Write => (self.cycle, BenchPhase::Load),
            BenchPhase::Load => if self.bytes == 0 {
                (self.cycle, BenchPhase::Measure)
            } else {
                (self.cycle, BenchPhase::Retire)
            },
            BenchPhase::Measure => (self.cycle, BenchPhase::Retire),
            BenchPhase::Retire => (self.cycle, BenchPhase::Settle),
            BenchPhase::Settle => if self.cycle + 1 < self.cycles {
                ((self.cycle + 1) as usize, BenchPhase::Bind)
            } else {
                (self.cycle, BenchPhase::RetireLast)
            },
            BenchPhase::RetireLast => (self.cycle, BenchPhase::RetireLast),
        }
    }

    /// Whether `after` is the run after its action was done at `now`, with `length` the length of
    /// the memory where that was measured.
    pub open spec fn goes_to(&self, now: Duration, length: Option<u64>, after: BenchRun) -> bool {
        let (cycle, phase) = self.following();
        &&& after.dir == self.dir
        &&& after.cycles == self.cycles
        &&& after.settle == self.settle
        &&& after.cycle == cycle
        &&& after.phase == phase
        &&& after.begun == if phase is Pause {
            now
        } else {
            self.begun
        }
        &&& if self.phase is Load {
            after.freezes@.len() == self.freezes@.len() + 1 && after.freezes@.drop_last()
                == self.freezes@ && after.freezes@.last()@ == steps::since(self.begun@, now@)
        } else {
            after.freezes@ == self.freezes@
        }
        &&& after.bytes == match (self.phase, length) {
            (BenchPhase::Measure, Some(n)) => n,
            (BenchPhase::Measure, None) => 0,
            _ => self.bytes,
        }
    }

    /// The action of the run's phase.
    fn action(&self) -> (action: BenchAction)
        ensures
            self.is_action(action),
    {
        match self.phase {
            BenchPhase::Bind => BenchAction::Bind(
                cycle_path(&self.dir, "uffd-", self.cycle, ".sock"),
            ),
            BenchPhase::Serve => BenchAction::Serve(
                cycle_path(&self.dir, "mem-", self.cycle, ".snap"),
            ),
            BenchPhase::Launch => BenchAction::Launch {
                api_sock: cycle_path(&self.dir, "fc-", self.cycle, ".sock"),
                serial_log: cycle_path(&self.dir, "fc-", self.cycle, ".log"),
            },
            BenchPhase::Pause => BenchAction::Pause,
            BenchPhase::Write => BenchAction::Write(
                SnapshotTarget {
                    mem_file: cycle_path(&self.dir, "mem-", self.cycle, ".snap"),
                    state_file: cycle_path(&self.dir, "state-", self.cycle, ".snap"),
                },
            ),
            BenchPhase::Load => BenchAction::Load(
                SnapshotSource {
                    state_file: cycle_path(&self.dir, "state-", self.cycle, ".snap"),
                    backend: MemBackend::Uffd {
                        socket: cycle_path(&self.dir, "uffd-", self.cycle, ".sock"),
                    },
                    resume: true,
                },
            ),
            BenchPhase::Measure => BenchAction::Measure(
                cycle_path(&self.dir, "mem-", self.cycle, ".snap"),
            ),
            BenchPhase::Retire => BenchAction::Retire,
            BenchPhase::Settle => BenchAction::Settle(self.settle),
            BenchPhase::RetireLast => BenchAction::RetireLast,
        }
    }

    /// A measurement of `cycles` cycles, with files in `dir`, once the first VM runs.
    pub fn begin(dir: &str, cycles: usize, settle: Duration) -> (step: BenchStep)
        ensures
            step matches BenchStep::Perform(run, action) && {
                &&& run.dir@ == dir@
                &&& run.cycles == cycles
                &&& run.settle == settle
                &&& run.cycle == 0
                &&& run.phase == if cycles == 0 {
                    BenchPhase::RetireLast
                } else {
                    BenchPhase::Bind
                }
                &&& run.freezes@.len() == 0
                &&& run.bytes == 0
                &&& run.is_action(action)
            },
    {
        let phase = if cycles == 0 {
            BenchPhase::RetireLast
        } else {
            BenchPhase::Bind
        };
        let run = BenchRun {
            dir: dir.to_owned(),
            cycles,
            settle,
            cycle: 0,
            phase,
            begun: Duration::zero(),
            freezes: Vec::new(),
            bytes: 0,
        };
        let action = run.action();
        BenchStep::Perform(run, action)
    }

    /// What follows once the last action was done, at `now`. Where that was to measure the memory,
    /// `length` is its length, if that could be found out.
    pub fn step(self, now: Duration, length: Option<u64>) -> (step: BenchStep)
        ensures
            if self.phase is RetireLast {
                step matches BenchStep::Finish(found) && found.freezes == self.freezes
                    && found.bytes == self.bytes
            } else {
                step matches BenchStep::Perform(run, action) && self.goes_to(now, length, run)
                    && run.is_action(action)
            },
    {
        let mut run = self;
        match run.phase {
            BenchPhase::Bind => {
                run.phase = BenchPhase::Serve;
            },
            BenchPhase::Serve => {
                run.phase = BenchPhase::Launch;
            },
            BenchPhase::Launch => {
                run.phase = BenchPhase::Pause;
                run.begun = now;
            },
            BenchPhase::Pause => {
                run.phase = BenchPhase::Write;
            },
            BenchPhase::Write => {
                run.phase = BenchPhase::Load;
            },
            BenchPhase::Load => {
                let ghost before = run.freezes@;
                run.freezes.push(now.saturating_sub(run.begun));
                proof {
                    assert(run.freezes@.drop_last() =~= before);
                }
                if run.bytes == 0 {
                    run.phase = BenchPhase::Measure;
                } else {
                    run.phase = BenchPhase::Retire;
                }
            },
            BenchPhase::Measure => {
                run.phase = BenchPhase::Retire;
                run.bytes = match length {
                    Some(n) => n,
                    None => 0,
                };
            },
            BenchPhase::Retire => {
                run.phase = BenchPhase::Settle;
            },
            BenchPhase::Settle => {
                if run.cycle < run.cycles && run.cycle + 1 < run.cycles {
                    run.cycle = run.cycle + 1;
                    run.phase = BenchPhase::Bind;
                } else {
                    run.phase = BenchPhase::RetireLast;
                }
            },
            BenchPhase::RetireLast => {
                return BenchStep::Finish(BenchResult { freezes: run.freezes, bytes: run.bytes });
            },
        }
        let action = run.action();
        BenchStep::Perform(run, action)
    }
}

/// The target's process and its page server are up before the guest is paused: only the snapshot and
/// its restore are between the pause and the guest running on.
pub proof fn law_freeze_covers_snapshot_and_restore_only(run: BenchRun)
    ensures
        run.following().1 is Pause ==> run.phase is Launch,
        run.phase is Pause ==> run.following().1 is Write,
        run.phase is Write ==> run.following().1 is Load,
        run.following().1 is Launch ==> run.phase is Serve,
{
}

/// The shortest and the longest of a number of spans.
#[derive(Clone, Copy, Debug, PartialEq, Eq, Structural)]
pub struct Spread {
    /// The shortest.
    pub min: Duration,
    /// The longest.
    pub max: Duration,
}

/// Whether `spread` are the shortest and the longest of `spans`.
pub open spec fn is_spread(spans: Seq<Duration>, spread: Spread) -> bool {
    &&& spans.contains(spread.min)
    &&& spans.contains(spread.max)
    &&& forall|i: int|
        0 <= i < spans.len() ==> spread.min@ <= (#[trigger] spans[i])@ <= spread.max@
}

/// The shortest and the longest, where there are any.
pub fn spread(spans: &Vec<Duration>) -> (out: Option<Spread>)
    ensures
        match out {
            Some(s) => is_spread(spans@, s),
            None => spans@.len() == 0,
        },
{
    if spans.len() == 0 {
        return None;
    }
    let mut min = spans[0];
    let mut max = spans[0];
    let mut i: usize = 1;
    while i < spans.len()
        invariant
            1 <= i <= spans@.len(),
            spans@.contains(min),
            spans@.contains(max),
            forall|j: int| 0 <= j < i ==> min@ <= (#[trigger] spans@[j])@ <= max@,
        decreases spans@.len() - i,
    {
        if spans[i].shorter_than(&min) {
            min = spans[i];
        }
        if max.shorter_than(&spans[i]) {
            max = spans[i];
        }
        i = i + 1;
    }
    Some(Spread { min, max })
}

// ---------------------------------------------------------------------------
// What a cycle is for
// ---------------------------------------------------------------------------

/// The parts of a cycle agree on its files: pages are served from the file that the memory was
/// written to, and that is the one measured; the state that is loaded is the state that was written;
/// the page server listens where the target is told to find it. No two of them are one file.
pub proof fn law_cycle_agrees_on_its_files(
    binding: BenchRun,
    serving: BenchRun,
    writing: BenchRun,
    loading: BenchRun,
    measuring: BenchRun,
    bound: BenchAction,
    served: BenchAction,
    written: BenchAction,
    loaded: BenchAction,
    measured: BenchAction,
)
    requires
        binding.phase is Bind,
        serving.phase is Serve,
        writing.phase is Write,
        loading.phase is Load,
        measuring.phase is Measure,
        serving.dir@ == binding.dir@ && serving.cycle == binding.cycle,
        writing.dir@ == binding.dir@ && writing.cycle == binding.cycle,
        loading.dir@ == binding.dir@ && loading.cycle == binding.cycle,
        measuring.dir@ == binding.dir@ && measuring.cycle == binding.cycle,
        binding.is_action(bound),
        serving.is_action(served),
        writing.is_action(written),
        loading.is_action(loaded),
        measuring.is_action(measured),
    ensures
        ({
            &&& bound matches BenchAction::Bind(socket)
            &&& served matches BenchAction::Serve(memory)
            &&& written matches BenchAction::Write(target)
            &&& loaded matches BenchAction::Load(source)
            &&& measured matches BenchAction::Measure(length_of)
            &&& source.backend matches MemBackend::Uffd { socket: found_at }
            &&& memory@ == target.mem_file@
            &&& length_of@ == target.mem_file@
            &&& source.state_file@ == target.state_file@
            &&& found_at@ == socket@
            &&& source.resume
            &&& target.mem_file@ != target.state_file@
            &&& target.mem_file@ != socket@
            &&& target.state_file@ != socket@
        }),
{
    let dir = binding.dir@;
    let n = text::decimal(binding.cycle as nat);
    reveal_strlit("mem-");
    reveal_strlit("state-");
    reveal_strlit("uffd-");
    reveal_strlit(".snap");
    reveal_strlit(".sock");
    let (m, s, u) = ("mem-"@ + n + ".snap"@, "state-"@ + n + ".snap"@, "uffd-"@ + n + ".sock"@);
    assert(m[0] == 'm' && s[0] == 's' && u[0] == 'u');
    if paths::under(dir, m) == paths::under(dir, s) {
        paths::law_under_is_injective(dir, m, s);
    }
    if paths::under(dir, m) == paths::under(dir, u) {
        paths::law_under_is_injective(dir, m, u);
    }
    if paths::under(dir, s) == paths::under(dir, u) {
        paths::law_under_is_injective(dir, s, u);
    }
}

/// Every cycle has files of its own.
pub proof fn law_cycles_have_files_of_their_own(
    a: BenchRun,
    b: BenchRun,
    prefix: Seq<char>,
    suffix: Seq<char>,
)
    requires
        a.dir@ == b.dir@,
        a.cycle != b.cycle,
    ensures
        a.file(prefix, suffix) != b.file(prefix, suffix),
{
    let (m, n) = (
        cycle_name(prefix, a.cycle as nat, suffix),
        cycle_name(prefix, b.cycle as nat, suffix),
    );
    if a.file(prefix, suffix) == b.file(prefix, suffix) {
        paths::law_under_is_injective(a.dir@, m, n);
        let from = prefix.len() as int;
        assert(m.subrange(from, m.len() - suffix.len()) =~= text::decimal(a.cycle as nat));
        assert(n.subrange(from, n.len() - suffix.len()) =~= text::decimal(b.cycle as nat));
        text::lemma_decimal_injective(a.cycle as nat, b.cycle as nat);
    }
}

/// What is measured in a cycle is the time from when the pause was asked for until the guest ran on.
pub proof fn law_freeze_is_from_pause_to_resume(
    launched: BenchRun,
    pausing: BenchRun,
    writing: BenchRun,
    loading: BenchRun,
    after: BenchRun,
    paused_at: Duration,
    stopped_at: Duration,
    written_at: Duration,
    resumed_at: Duration,
    lengths: (Option<u64>, Option<u64>, Option<u64>, Option<u64>),
)
    requires
        launched.phase is Launch,
        launched.goes_to(paused_at, lengths.0, pausing),
        pausing.goes_to(stopped_at, lengths.1, writing),
        writing.goes_to(written_at, lengths.2, loading),
        loading.goes_to(resumed_at, lengths.3, after),
        paused_at@ <= resumed_at@,
    ensures
        pausing.phase is Pause,
        writing.phase is Write,
        loading.phase is Load,
        after.freezes@.len() == launched.freezes@.len() + 1,
        after.freezes@.last()@ == resumed_at@ - paused_at@,
        after.freezes@.drop_last() == launched.freezes@,
{
}

/// Whether as many cycles have been measured as have come past the load.
pub open spec fn measured_so_far(run: BenchRun) -> bool {
    &&& run.phase is RetireLast ==> run.freezes@.len() == run.cycles
    &&& !(run.phase is RetireLast) ==> run.cycle < run.cycles && run.freezes@.len() == run.cycle + (
    if run.phase is Measure || run.phase is Retire || run.phase is Settle {
        1int
    } else {
        0
    })
}

/// Every cycle is measured once: with each step as many have been measured as have come past the
/// load, and in the end as many as there were to be.
pub proof fn law_every_cycle_is_measured_once(
    run: BenchRun,
    now: Duration,
    length: Option<u64>,
    after: BenchRun,
)
    requires
        measured_so_far(run),
        !(run.phase is RetireLast),
        run.goes_to(now, length, after),
    ensures
        measured_so_far(after),
{
}

/// The VM that is measured boots from what it was given, from a disk that it only reads, as its
/// command line says too; it is started last.
pub proof fn law_first_vm_boots_read_only(ops: Seq<ApiOp>, kernel: Seq<char>, rootfs: Seq<char>)
    requires
        boots_initial(ops, kernel, rootfs),
    ensures
        ops.last() is Boot,
        forall|i: int| 0 <= i < ops.len() - 1 ==> !(#[trigger] ops[i] is Boot),
        exists|i: int|
            0 <= i < ops.len() && (#[trigger] ops[i] matches ApiOp::ConfigureDrive(drive)
                && drive.path_on_host@ == rootfs && drive.is_read_only && drive.is_root_device),
        exists|i: int|
            0 <= i < ops.len() && (#[trigger] ops[i] matches ApiOp::ConfigureBootSource(source)
                && source.kernel_image@ == kernel && text::ends_with(
                source.boot_args@,
                "root=/dev/vda ro"@,
            )),
{
    reveal_strlit("console=ttyS0 reboot=k panic=1 pci=off root=/dev/vda ro");
    reveal_strlit("root=/dev/vda ro");
    let args = BENCH_BOOT_ARGS@;
    assert(args.skip(args.len() - 16) =~= "root=/dev/vda ro"@);
    assert(ops[2] is ConfigureDrive);
    assert(ops[1] is ConfigureBootSource);
}

/// A look at the console finds the VM up only where the console shows it in time, gives up only when
/// time is up, and is otherwise repeated.
pub proof fn law_console_is_believed_in_time(
    console: Option<String>,
    needle: Seq<char>,
    now: nat,
    timeout: nat,
    found: ConsoleWait,
)
    requires
        console_shows(console, needle, now, timeout, found),
    ensures
        found is GiveUp <==> timeout <= now,
        found is Up <==> now < timeout && (console matches Some(shown) && text::has_part(
            shown@,
            needle,
        )),
        found matches ConsoleWait::Again(span) ==> span@ > 0,
{
}

/// A measurement stays as it was asked for, and the guest settles for as long as that says.
pub proof fn law_measurement_stays_as_asked(
    run: BenchRun,
    now: Duration,
    length: Option<u64>,
    after: BenchRun,
    action: BenchAction,
)
    requires
        run.goes_to(now, length, after),
        after.is_action(action),
    ensures
        after.dir@ == run.dir@,
        after.cycles == run.cycles,
        after.settle == run.settle,
        action matches BenchAction::Settle(span) ==> span@ == run.settle@,
        run.phase is Measure ==> after.bytes == (match length {
            Some(n) => n,
            None => 0,
        }),
        !(run.phase is Measure) ==> after.bytes == run.bytes,
        run.phase is Load && run.bytes > 0 ==> after.phase is Retire,
        run.phase is Load && run.bytes == 0 ==> after.phase is Measure,
        after.cycle == run.cycle || (run.phase is Settle && after.cycle == run.cycle + 1
            && after.phase is Bind),
        action matches BenchAction::Launch { api_sock, serial_log } ==> api_sock@ != serial_log@,
{
    if after.phase is Launch {
        let n = text::decimal(after.cycle as nat);
        reveal_strlit(".sock");
        reveal_strlit(".log");
        let (a, b) = ("fc-"@ + n + ".sock"@, "fc-"@ + n + ".log"@);
        assert(a.len() != b.len());
        if paths::under(after.dir@, a) == paths::under(after.dir@, b) {
            paths::law_under_is_injective(after.dir@, a, b);
        }
    }
}

/// The shortest and the longest of some spans are two of them, and all lie between.
pub proof fn law_spread_spans_all(spans: Seq<Duration>, spread: Spread, i: int)
    requires
        is_spread(spans, spread),
        0 <= i < spans.len(),
    ensures
        spread.min@ <= spans[i]@ <= spread.max@,
        exists|j: int| 0 <= j < spans.len() && #[trigger] spans[j] == spread.min,
        exists|j: int| 0 <= j < spans.len() && #[trigger] spans[j] == spread.max,
{
}

} // verus!
