//! The commands.

use vstd::prelude::*;

verus! {

/// What is to be done with the host.
#[derive(Clone, Copy, Debug, PartialEq, Eq, Structural)]
pub enum HostAction {
    /// Start the daemon.
    Run,
}

/// What is to be done with the VMs of this host.
#[derive(Debug, PartialEq, Eq)]
pub enum VmAction {
    /// Create one.
    Create {
        /// The profile of its root disk.
        profile: String,
    },
    /// List them.
    List,
    /// Show how one is doing.
    Status {
        /// Which.
        vm: String,
    },
}

/// A command.
#[derive(Debug, PartialEq, Eq)]
pub enum Command {
    /// The per-host daemon.
    Host {
        /// What is to be done with it.
        action: HostAction,
    },
    /// The VMs of this host.
    Vm {
        /// What is to be done with them.
        action: VmAction,
    },
    /// Move a VM to another host.
    Migrate {
        /// The VM.
        vm: String,
        /// The other host.
        to: String,
    },
    /// Rebalance the fleet.
    Rebalance {
        /// Whether to go on doing so.
        watch: bool,
    },
    /// Show whether a VM is quiescent.
    Quiesce {
        /// Which.
        vm: String,
    },
}

impl Command {
    /// The command as it is typed, without its arguments.
    pub open spec fn name(&self) -> Seq<char> {
        match *self {
            Command::Host { action: HostAction::Run } => "host run"@,
            Command::Vm { action: VmAction::Create { .. } } => "vm create"@,
            Command::Vm { action: VmAction::List } => "vm list"@,
            Command::Vm { action: VmAction::Status { .. } } => "vm status"@,
            Command::Migrate { .. } => "migrate"@,
            Command::Rebalance { .. } => "rebalance"@,
            Command::Quiesce { .. } => "quiesce"@,
        }
    }
}

/// What a command that cannot be carried out yet is answered.
pub open spec fn unwired(what: Seq<char>) -> Seq<char> {
    "`"@ + what + "` needs the host runtime, which is not wired yet — see ROADMAP"@
}

/// What a command that cannot be carried out yet is answered.
fn not_wired(what: &str) -> (r: Result<(), String>)
    ensures
        r matches Err(why) && why@ == unwired(what@),
{
    let mut why = "`".to_owned();
    why.append(what);
    why.append("` needs the host runtime, which is not wired yet — see ROADMAP");
    Err(why)
}

/// Carries a command out. None can be yet, and each says so rather than pretending to act.
pub fn dispatch(command: &Command) -> (r: Result<(), String>)
    ensures
        r matches Err(why) && why@ == unwired(command.name()),
{
    match command {
        Command::Host { action: HostAction::Run } => not_wired("host run"),
        Command::Vm { action } => match action {
            VmAction::Create { .. } => not_wired("vm create"),
            VmAction::List => not_wired("vm list"),
            VmAction::Status { .. } => not_wired("vm status"),
        },
        Command::Migrate { .. } => not_wired("migrate"),
        Command::Rebalance { .. } => not_wired("rebalance"),
        Command::Quiesce { .. } => not_wired("quiesce"),
    }
}

} // verus!
