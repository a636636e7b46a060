//! Booting, moving, restoring and measuring VMs.

use sleepwalk::hostd::bench::{
    boot_initial, spread, wait_for_serial, BenchAction, BenchResult, BenchRun, BenchStep,
    ConsoleWait, Spread,
};
use sleepwalk::hostd::campaign::{still_to_come, SendCampaign, SendStep};
use sleepwalk::hostd::firecracker::{
    ApiOp, BootSource, Drive, FirecrackerError, MachineConfig, MemBackend,
};
use sleepwalk::hostd::guestlink::DrainState;
use sleepwalk::hostd::migrate::{
    discover_artifacts, migrate_running, migrate_source, restore_register, restore_target,
    DirFile, DirTree, MigrateOutcome,
};
use sleepwalk::hostd::net::NetId;
use sleepwalk::hostd::registry::{RunningVm, VmRegistry};
use sleepwalk::hostd::steps::{
    Action, Artifacts, Closing, Event, MigrateError, SourceTiming, Step,
};
use sleepwalk::hostd::transfer::{OutboundFile, TransferError};
use sleepwalk::proto::ids::{HostId, VmId};
use sleepwalk::time::Duration;

fn artifacts() -> Artifacts {
    Artifacts {
        fc_bin: "/art/firecracker-v1".to_owned(),
        kernel: "/art/vmlinux".to_owned(),
        rootfs: "/art/guestd-rootfs.ext4".to_owned(),
    }
}

fn net() -> NetId {
    NetId {
        tap: "sw-tap7".to_owned(),
        mac: "02:00:00:00:00:09".to_owned(),
        ip: "10.200.0.9".to_owned(),
    }
}

fn running(networked: bool, served: bool) -> RunningVm {
    RunningVm {
        id: VmId::from_uuid(5),
        api_sock: "/w/fc.sock".to_owned(),
        work: "/w".to_owned(),
        vsock_uds: "/tmp/v.sock".to_owned(),
        mib: 256,
        served,
        net: if networked { Some(net()) } else { None },
    }
}

fn at(ms: u64) -> Duration {
    Duration::from_millis(ms)
}

fn io(context: &str, source: &str) -> MigrateError {
    MigrateError::Io { context: context.to_owned(), source: source.to_owned() }
}

fn refused() -> FirecrackerError {
    FirecrackerError::Rejected { op: "pause", detail: "no".to_owned() }
}

fn cleared(work: &str, uds: &str) -> Vec<Closing> {
    vec![
        Closing::Kill,
        Closing::RemoveDir(work.to_owned()),
        Closing::RemoveFile(uds.to_owned()),
    ]
}

// The files that a VM is booted from.

fn dir_file(name: &str, path: &str) -> DirFile {
    DirFile { name: name.to_owned(), path: path.to_owned() }
}

#[test]
fn artifacts_are_found_by_name() {
    let dir = DirTree {
        files: vec![
            dir_file("firecracker-v1.debug", "/a/firecracker-v1.debug"),
            dir_file("firecracker-v1.tgz", "/a/firecracker-v1.tgz"),
            dir_file("guestd-rootfs.ext4", "/a/guestd-rootfs.ext4"),
        ],
        dirs: vec![
            DirTree { files: vec![], dirs: vec![] },
            DirTree {
                files: vec![
                    dir_file("vmlinux-6.1", "/a/b/vmlinux-6.1"),
                    dir_file("firecracker-v1", "/a/b/firecracker-v1"),
                ],
                dirs: vec![],
            },
            DirTree { files: vec![dir_file("vmlinux-5", "/a/c/vmlinux-5")], dirs: vec![] },
        ],
    };
    assert_eq!(
        discover_artifacts(&dir, None),
        Ok(Artifacts {
            fc_bin: "/a/b/firecracker-v1".to_owned(),
            kernel: "/a/b/vmlinux-6.1".to_owned(),
            rootfs: "/a/guestd-rootfs.ext4".to_owned(),
        })
    );
    let Ok(art) = discover_artifacts(&dir, Some("/agent.ext4".to_owned())) else {
        panic!("found");
    };
    assert_eq!(art.rootfs, "/agent.ext4");
}

#[test]
fn a_missing_artifact_is_named() {
    let empty = DirTree { files: vec![], dirs: vec![] };
    assert_eq!(
        discover_artifacts(&empty, None),
        Err(MigrateError::MissingArtifact("guestd rootfs (run `just guest-rootfs`)"))
    );
    assert_eq!(
        discover_artifacts(&empty, Some("/r".to_owned())),
        Err(MigrateError::MissingArtifact("firecracker binary"))
    );
    let half = DirTree { files: vec![dir_file("firecracker-1", "/f")], dirs: vec![] };
    assert_eq!(
        discover_artifacts(&half, Some("/r".to_owned())),
        Err(MigrateError::MissingArtifact("kernel"))
    );
}

// Moving a VM that is booted for it.

#[test]
fn a_booted_vm_is_drained_before_it_is_moved() {
    let mut step = migrate_source(artifacts(), "b:9000", "/tmp", 42, 1, 2);
    let mut names = Vec::new();
    let mut clock = 0;
    let end = loop {
        match step {
            Step::Perform(run, action) => {
                let event = match &action {
                    Action::Drain { deadline } => {
                        assert_eq!(*deadline, Duration::from_secs(5));
                        Event::Drained(DrainState::Quiescent)
                    }
                    Action::Measure(path) => {
                        assert_eq!(path, "/tmp/sleepwalk-src-42-1/mem.snap");
                        Event::Length(Some(1 << 28))
                    }
                    Action::ConnectVsock { uds, port, timeout } => {
                        assert_eq!(uds, "/tmp/sleepwalk-vsock-42-2.sock");
                        assert_eq!(*port, 5252);
                        assert_eq!(*timeout, Duration::from_secs(20));
                        Event::Done
                    }
                    Action::Send { addr, files } => {
                        assert_eq!(addr, "b:9000");
                        assert_eq!(
                            files,
                            &vec![
                                OutboundFile {
                                    name: "mem.snap".to_owned(),
                                    path: "/tmp/sleepwalk-src-42-1/mem.snap".to_owned(),
                                },
                                OutboundFile {
                                    name: "state.snap".to_owned(),
                                    path: "/tmp/sleepwalk-src-42-1/state.snap".to_owned(),
                                },
                            ]
                        );
                        Event::Done
                    }
                    _ => Event::Done,
                };
                names.push(match action {
                    Action::Control(op) => op.as_str(),
                    Action::CreateDir(_) => "mkdir",
                    Action::Launch { .. } => "launch",
                    Action::ConnectVsock { .. } => "connect",
                    Action::Handshake => "handshake",
                    Action::Drain { .. } => "drain",
                    Action::CloseLink => "close",
                    Action::Send { .. } => "send",
                    Action::Measure(_) => "measure",
                    other => panic!("{other:?}"),
                });
                clock += 10;
                step = run.step(event, at(clock));
            }
            Step::Finish(closings, result) => break (closings, result),
        }
    };
    assert_eq!(
        names,
        vec![
            "mkdir",
            "launch",
            "configure_machine",
            "configure_boot_source",
            "configure_drive",
            "configure_vsock",
            "boot",
            "connect",
            "handshake",
            "drain",
            "close",
            "pause",
            "create_snapshot",
            "send",
            "measure",
        ]
    );
    let timing =
        SourceTiming { snapshot: at(20), transfer: at(10), bytes: 1 << 28 };
    let mut closings = cleared("/tmp/sleepwalk-src-42-1", "/tmp/sleepwalk-vsock-42-2.sock");
    closings.push(Closing::CountMoved { freeze: at(30), bytes: 1 << 28 });
    assert_eq!(end, (closings, Ok(timing)));
}

fn source_fails_at(n: usize, event: Event) -> (Vec<Closing>, Result<SourceTiming, MigrateError>) {
    let mut step = migrate_source(artifacts(), "b:9000", "/tmp", 1, 0, 1);
    let mut left = n;
    let mut last = Some(event);
    loop {
        match step {
            Step::Perform(run, action) => {
                let next = if left == 0 {
                    match last.take() {
                        Some(event) => event,
                        None => panic!("the run goes on after {action:?}"),
                    }
                } else {
                    left -= 1;
                    match action {
                        Action::Drain { .. } => Event::Drained(DrainState::Quiescent),
                        _ => Event::Done,
                    }
                };
                step = run.step(next, at(0));
            }
            Step::Finish(closings, result) => return (closings, result),
        }
    }
}

#[test]
fn a_booted_vm_that_fails_is_cleared_away() {
    let failed = || Event::Failed("why".to_owned());
    let all = || cleared("/tmp/sleepwalk-src-1-0", "/tmp/sleepwalk-vsock-1-1.sock");
    let kill = || vec![Closing::Kill];
    assert_eq!(source_fails_at(0, failed()), (vec![], Err(io("create work dir", "why"))));
    assert_eq!(source_fails_at(1, failed()), (vec![], Err(io("spawn firecracker", "why"))));
    assert_eq!(
        source_fails_at(4, Event::Refused(refused())),
        (kill(), Err(MigrateError::Firecracker(refused())))
    );
    assert_eq!(
        source_fails_at(7, failed()),
        (all(), Err(io("connect guest vsock", "why")))
    );
    assert_eq!(
        source_fails_at(8, failed()),
        (all(), Err(io("guest handshake", "why")))
    );
    assert_eq!(
        source_fails_at(9, failed()),
        (all(), Err(io("drain guest", "why")))
    );
    assert_eq!(
        source_fails_at(9, Event::Drained(DrainState::Busy)),
        (all(), Err(MigrateError::NotQuiescent))
    );
    assert_eq!(
        source_fails_at(11, Event::Refused(refused())),
        (kill(), Err(MigrateError::Firecracker(refused())))
    );
    assert_eq!(
        source_fails_at(13, Event::Broken(TransferError::Io("x".to_owned()))),
        (kill(), Err(MigrateError::Transfer(TransferError::Io("x".to_owned()))))
    );
}

#[test]
fn an_event_that_answers_nothing_leaves_the_action_standing() {
    let Step::Perform(run, first) = migrate_source(artifacts(), "b", "/t", 1, 0, 1) else {
        panic!("begins");
    };
    let Step::Perform(_, again) = run.step(Event::Missing, at(0)) else {
        panic!("stays");
    };
    assert_eq!(first, again);
}

// Moving a VM that runs.

fn drive_running(
    vm: RunningVm,
    answers: Vec<Event>,
) -> (Vec<Action>, Vec<Closing>, Result<MigrateOutcome, MigrateError>) {
    let mut step = migrate_running(vm, "b:9000");
    let mut actions = Vec::new();
    let mut events = answers.into_iter();
    let mut clock = 0;
    loop {
        match step {
            Step::Perform(run, action) => {
                actions.push(action);
                clock += 1;
                let event = match events.next() {
                    Some(event) => event,
                    None => panic!("no answer left for {actions:?}"),
                };
                step = run.step(event, at(clock));
            }
            Step::Finish(closings, result) => return (actions, closings, result),
        }
    }
}

fn idle() -> Event {
    Event::Drained(DrainState::Quiescent)
}

#[test]
fn a_networked_vm_is_drained_over_its_network_and_torn_down_once_moved() {
    let (actions, closings, result) = drive_running(
        running(true, true),
        vec![
            Event::Done,
            Event::Done,
            idle(),
            Event::Done,
            Event::Done,
            Event::Done,
            Event::Done,
            Event::Done,
            Event::Done,
            Event::Length(None),
        ],
    );
    assert_eq!(
        actions[0],
        Action::ConnectTcp {
            addr: "10.200.0.9:5253".to_owned(),
            timeout: Duration::from_secs(20),
        }
    );
    assert_eq!(
        actions[4],
        Action::WriteText {
            path: "/w/vsock.txt".to_owned(),
            text: "/tmp/v.sock".to_owned(),
        }
    );
    assert_eq!(actions[5], Action::WriteNet("/w/net.json".to_owned()));
    assert_eq!(actions[6], Action::Control(ApiOp::Pause));
    let Action::Send { files, .. } = &actions[8] else {
        panic!("sends");
    };
    let names: Vec<&str> = files.iter().map(|f| f.name.as_str()).collect();
    assert_eq!(names, vec!["mem.snap", "state.snap", "vsock.txt", "net.json"]);
    let timing = SourceTiming { snapshot: at(2), transfer: at(1), bytes: 0 };
    assert_eq!(result, Ok(MigrateOutcome::Moved(timing)));
    assert_eq!(
        closings,
        vec![
            Closing::CountMoved { freeze: at(3), bytes: 0 },
            Closing::Kill,
            Closing::StopPages,
            Closing::DestroyTap("sw-tap7".to_owned()),
            Closing::RemoveDir("/w".to_owned()),
            Closing::RemoveFile("/tmp/v.sock".to_owned()),
        ]
    );
}

#[test]
fn a_busy_guest_keeps_its_vm() {
    let (actions, closings, result) = drive_running(
        running(false, false),
        vec![
            Event::Done,
            Event::Done,
            Event::Drained(DrainState::Busy),
            Event::Failed("gone".to_owned()),
        ],
    );
    assert_eq!(
        actions[0],
        Action::ConnectVsock {
            uds: "/tmp/v.sock".to_owned(),
            port: 5252,
            timeout: Duration::from_secs(20),
        }
    );
    assert_eq!(actions[3], Action::CancelDrain);
    assert!(closings.is_empty());
    assert_eq!(result, Ok(MigrateOutcome::StoodDown(running(false, false))));
}

#[test]
fn a_vm_out_of_reach_is_kept() {
    for n in 0..3 {
        let mut answers = vec![Event::Done, Event::Done];
        answers.truncate(n);
        answers.push(Event::Failed("x".to_owned()));
        let (_, closings, result) = drive_running(running(true, false), answers);
        assert!(closings.is_empty());
        assert_eq!(result, Ok(MigrateOutcome::StoodDown(running(true, false))));
    }
}

#[test]
fn a_move_that_fails_later_tears_the_vm_down() {
    let torn = vec![
        Closing::Kill,
        Closing::DestroyTap("sw-tap7".to_owned()),
        Closing::RemoveDir("/w".to_owned()),
        Closing::RemoveFile("/tmp/v.sock".to_owned()),
    ];
    let drained = || vec![Event::Done, Event::Done, idle(), Event::Done];

    let mut answers = drained();
    answers.push(Event::Failed("full".to_owned()));
    let (_, closings, result) = drive_running(running(true, false), answers);
    assert_eq!(closings, torn);
    assert_eq!(result, Err(io("write vsock path", "full")));

    let mut answers = drained();
    answers.push(Event::Done);
    answers.push(Event::Malformed("odd".to_owned()));
    let (_, closings, result) = drive_running(running(true, false), answers);
    assert_eq!(closings, torn);
    assert_eq!(result, Err(io("serialize net identity", "odd")));

    let mut answers = drained();
    answers.push(Event::Done);
    answers.push(Event::Failed("full".to_owned()));
    let (_, _, result) = drive_running(running(true, false), answers);
    assert_eq!(result, Err(io("write net identity", "full")));

    let mut answers = drained();
    answers.push(Event::Done);
    answers.push(Event::Refused(refused()));
    let (_, closings, result) = drive_running(running(false, false), answers);
    assert_eq!(closings[0], Closing::CountFailed);
    assert_eq!(closings[1], Closing::Kill);
    assert_eq!(closings.len(), 4);
    assert_eq!(result, Err(MigrateError::Firecracker(refused())));
}

// Restoring.

fn drive_restore(
    keep: bool,
    answers: Vec<Event>,
) -> (Vec<Action>, Vec<Closing>, Result<Option<RunningVm>, MigrateError>) {
    let mut step = if keep {
        restore_register("/fc", "/tmp", 9, 3)
    } else {
        restore_target("/fc", "/tmp", 9, 3)
    };
    let mut actions = Vec::new();
    let mut events = answers.into_iter();
    loop {
        match step {
            Step::Perform(run, action) => {
                actions.push(action);
                let event = match events.next() {
                    Some(event) => event,
                    None => panic!("no answer left for {actions:?}"),
                };
                step = run.step(event);
            }
            Step::Finish(closings, result) => return (actions, closings, result),
        }
    }
}

fn done(n: usize) -> Vec<Event> {
    (0..n).map(|_| Event::Done).collect()
}

fn networked_restore() -> Vec<Event> {
    let mut answers = vec![Event::Done, Event::Received(4), Event::Net(net())];
    answers.extend(done(6));
    answers.push(Event::Failed("no arp".to_owned()));
    answers.push(Event::Text(" /tmp/v.sock\n".to_owned()));
    answers.push(Event::Length(Some(3 * 1048576 + 7)));
    answers
}

#[test]
fn a_restored_vm_keeps_its_identity() {
    let (actions, closings, result) = drive_restore(true, networked_restore());
    let work = "/tmp/sleepwalk-tgt-9-3";
    assert_eq!(actions[1], Action::Receive { dir: work.to_owned() });
    assert_eq!(actions[2], Action::ReadNet(format!("{work}/net.json")));
    assert_eq!(actions[3], Action::CreateTap("sw-tap7".to_owned()));
    assert_eq!(actions[4], Action::BindPages(format!("{work}/uffd.sock")));
    assert_eq!(actions[5], Action::ServePages(format!("{work}/mem.snap")));
    let Action::Control(ApiOp::LoadSnapshot(source)) = &actions[7] else {
        panic!("loads");
    };
    assert_eq!(source.backend, MemBackend::Uffd { socket: format!("{work}/uffd.sock") });
    assert!(source.resume);
    assert_eq!(actions[8], Action::Sleep(Duration::from_millis(300)));
    assert_eq!(actions[9], Action::Announce);
    assert!(closings.is_empty());
    let Ok(Some(vm)) = result else {
        panic!("runs");
    };
    assert_eq!(vm.net, Some(net()));
    assert_eq!(vm.vsock_uds, "/tmp/v.sock");
    assert_eq!(vm.mib, 3);
    assert!(vm.served);
    assert_eq!(vm.api_sock, format!("{work}/fc.sock"));
}

#[test]
fn a_vm_restored_for_show_is_torn_down() {
    let (_, closings, result) = drive_restore(false, networked_restore());
    assert_eq!(result, Ok(None));
    assert_eq!(
        closings,
        vec![
            Closing::Kill,
            Closing::StopPages,
            Closing::DestroyTap("sw-tap7".to_owned()),
            Closing::RemoveDir("/tmp/sleepwalk-tgt-9-3".to_owned()),
            Closing::RemoveFile("/tmp/v.sock".to_owned()),
        ]
    );
}

#[test]
fn a_vm_without_a_network_is_not_announced() {
    let mut answers = vec![Event::Done, Event::Received(2), Event::Missing];
    answers.extend(done(5));
    answers.push(Event::Missing);
    answers.push(Event::Length(None));
    let (actions, _, result) = drive_restore(true, answers);
    assert!(!actions.contains(&Action::Announce));
    let Ok(Some(vm)) = result else {
        panic!("runs");
    };
    assert_eq!(vm.vsock_uds, "");
    assert_eq!(vm.mib, 0);
    assert_eq!(vm.net, None);
}

#[test]
fn a_restore_that_fails_says_where() {
    let failed = || Event::Failed("why".to_owned());
    let begun = |mut more: Vec<Event>| {
        let mut answers = vec![Event::Done, Event::Received(3)];
        answers.append(&mut more);
        drive_restore(true, answers)
    };
    let work = || Closing::RemoveDir("/tmp/sleepwalk-tgt-9-3".to_owned());

    assert_eq!(drive_restore(true, vec![failed()]).2, Err(io("create work dir", "why")));
    let broken = TransferError::Protocol("x".to_owned());
    assert_eq!(
        drive_restore(true, vec![Event::Done, Event::Broken(TransferError::Protocol("x".to_owned()))]).2,
        Err(MigrateError::Transfer(broken))
    );
    for n in [0, 1, 5] {
        assert_eq!(
            drive_restore(true, vec![Event::Done, Event::Received(n)]).2,
            Err(MigrateError::Snapshot(format!("expected 2..4 files, got {n}")))
        );
    }
    assert_eq!(begun(vec![failed()]).2, Err(io("read net identity", "why")));
    assert_eq!(
        begun(vec![Event::Malformed("why".to_owned())]).2,
        Err(io("parse net identity", "why"))
    );
    let (_, closings, result) = begun(vec![Event::Net(net()), failed()]);
    assert_eq!(result, Err(io("re-plumb vm tap", "why")));
    assert_eq!(closings, vec![work()]);
    assert_eq!(begun(vec![Event::Missing, failed()]).2, Err(io("bind uffd socket", "why")));
    let (_, closings, result) =
        begun(vec![Event::Missing, Event::Done, Event::Done, failed()]);
    assert_eq!(result, Err(io("spawn firecracker", "why")));
    assert!(closings.is_empty());
    let (_, closings, result) = begun(vec![
        Event::Net(net()),
        Event::Done,
        Event::Done,
        Event::Done,
        Event::Done,
        Event::Refused(refused()),
    ]);
    assert_eq!(result, Err(MigrateError::Firecracker(refused())));
    assert_eq!(
        closings,
        vec![
            Closing::Kill,
            Closing::StopPages,
            Closing::DestroyTap("sw-tap7".to_owned()),
            work(),
        ]
    );
}

// The register.

#[test]
fn a_networked_vm_is_booted_with_its_address() {
    let mut step = VmRegistry::spawn(artifacts(), 512, Some(7), "/tmp", 42, 3);
    let mut actions = Vec::new();
    let vm = loop {
        match step {
            Step::Perform(run, action) => {
                actions.push(action);
                step = run.step(Event::Done);
            }
            Step::Finish(closings, result) => {
                assert!(closings.is_empty());
                match result {
                    Ok(vm) => break vm,
                    Err(e) => panic!("{e:?}"),
                }
            }
        }
    };
    assert_eq!(actions[0], Action::CreateDir("/tmp/sleepwalk-vm-42-3".to_owned()));
    assert_eq!(actions[1], Action::CreateTap("sw-tap7".to_owned()));
    let Action::Control(ApiOp::ConfigureBootSource(boot)) = &actions[4] else {
        panic!("boot source");
    };
    assert_eq!(
        boot.boot_args,
        format!(
            "{} {}",
            "console=ttyS0 reboot=k panic=1 pci=off root=/dev/vda rw init=/init",
            "ip=10.200.0.9::10.200.0.1:255.255.255.0::eth0:off"
        )
    );
    let Action::Control(ApiOp::ConfigureNetwork(eth)) = &actions[7] else {
        panic!("network");
    };
    assert_eq!(eth.iface_id, "eth0");
    assert_eq!(eth.host_dev_name, "sw-tap7");
    assert_eq!(actions[8], Action::Control(ApiOp::Boot));
    assert_eq!(vm.net, Some(net()));
    assert_eq!(vm.mib, 512);
    assert_eq!(vm.vsock_uds, "/tmp/sleepwalk-vm-vsock-42-3.sock");
    assert!(!vm.served);
}

#[test]
fn a_boot_that_fails_says_where() {
    let run = |index: Option<u32>, n: usize, last: Event| {
        let mut step = VmRegistry::spawn(artifacts(), 1, index, "/t", 1, 0);
        let mut left = n;
        let mut last = Some(last);
        loop {
            match step {
                Step::Perform(run, _) => {
                    let event = if left == 0 {
                        match last.take() {
                            Some(event) => event,
                            None => panic!("goes on"),
                        }
                    } else {
                        left -= 1;
                        Event::Done
                    };
                    step = run.step(event);
                }
                Step::Finish(closings, result) => return (closings, result),
            }
        }
    };
    let failed = || Event::Failed("why".to_owned());
    assert_eq!(run(None, 0, failed()), (vec![], Err(io("create vm work dir", "why"))));
    assert_eq!(run(Some(1), 1, failed()), (vec![], Err(io("plumb vm network", "why"))));
    assert_eq!(
        run(Some(253), 0, Event::Done),
        (
            vec![],
            Err(io("plumb vm network", "vm network index 253 out of range (max 252)"))
        )
    );
    assert_eq!(run(None, 1, failed()), (vec![], Err(io("spawn firecracker", "why"))));
    assert_eq!(
        run(None, 3, Event::Refused(refused())),
        (vec![Closing::Kill], Err(MigrateError::Firecracker(refused())))
    );
}

#[test]
fn the_register_keeps_its_vms_in_order() {
    let mut registry = VmRegistry::new(HostId::new("host-a"));
    for n in [9u128, 2, 5] {
        registry.insert(RunningVm { id: VmId::from_uuid(n), ..running(true, true) });
    }
    let status = registry.status(0.5f64.to_bits());
    assert_eq!(status.host, "host-a");
    assert_eq!(status.pressure, 0.5f64.to_bits());
    let ids: Vec<String> =
        [2u128, 5, 9].iter().map(|n| VmId::from_uuid(*n).to_text()).collect();
    assert_eq!(status.vms, ids);

    let Some(taken) = registry.take(&VmId::from_uuid(5)) else {
        panic!("there");
    };
    assert_eq!(taken.id, VmId::from_uuid(5));
    assert!(registry.take(&VmId::from_uuid(5)).is_none());
    let Some(closings) = registry.remove(&VmId::from_uuid(2)) else {
        panic!("there");
    };
    assert_eq!(closings[0], Closing::Kill);
    assert_eq!(closings[1], Closing::StopPages);
    assert_eq!(closings[2], Closing::DestroyTap("sw-tap7".to_owned()));
    assert!(registry.remove(&VmId::from_uuid(2)).is_none());
    assert_eq!(registry.status(0).vms.len(), 1);
}

// Measuring.

#[test]
fn a_source_tries_three_times() {
    let (c, step) = SendCampaign::new(2);
    assert_eq!(step, SendStep::Attempt);
    let (c, step) = c.failed();
    assert_eq!(step, SendStep::Backoff(Duration::from_millis(500)));
    let (c, step) = c.succeeded();
    assert_eq!(step, SendStep::Attempt);
    let (c, _) = c.failed();
    let (c, step) = c.failed();
    assert_eq!(step, SendStep::Backoff(Duration::from_millis(500)));
    let (c, step) = c.failed();
    assert_eq!(step, SendStep::GiveUp("run 2 failed after 3 attempts".to_owned()));
    let (_, step) = c.succeeded();
    assert_eq!(step, SendStep::Report);
    assert_eq!(SendCampaign::new(0).1, SendStep::Report);
    assert_eq!(still_to_come(2, true), 1);
    assert_eq!(still_to_come(2, false), 2);
}

#[test]
fn the_freeze_window_runs_from_pause_to_restore() {
    let mut step = BenchRun::begin("/b", 2, Duration::from_millis(1000));
    let mut actions = Vec::new();
    let mut clock = 0;
    let found = loop {
        match step {
            BenchStep::Perform(run, action) => {
                let length = if matches!(action, BenchAction::Measure(_)) { Some(77) } else { None };
                actions.push(action);
                clock += 1;
                step = run.step(at(clock), length);
            }
            BenchStep::Finish(found) => break found,
        }
    };
    assert_eq!(found, BenchResult { freezes: vec![at(3), at(3)], bytes: 77 });
    assert_eq!(actions.len(), 9 + 8 + 1);
    assert_eq!(actions[0], BenchAction::Bind("/b/uffd-0.sock".to_owned()));
    assert_eq!(actions[9], BenchAction::Bind("/b/uffd-1.sock".to_owned()));
    assert_eq!(actions[8], BenchAction::Settle(Duration::from_millis(1000)));
    assert_eq!(actions[17], BenchAction::RetireLast);
    assert_eq!(
        actions.iter().filter(|a| matches!(a, BenchAction::Measure(_))).count(),
        1
    );
}

#[test]
fn the_spread_is_the_shortest_and_the_longest() {
    assert_eq!(spread(&vec![]), None);
    assert_eq!(
        spread(&vec![at(3), at(1), at(2)]),
        Some(Spread { min: at(1), max: at(3) })
    );
}

#[test]
fn the_first_vm_is_booted_from_its_kernel_and_rootfs() {
    assert_eq!(
        boot_initial("/art/vmlinux", "/art/rootfs.ext4"),
        vec![
            ApiOp::ConfigureMachine(MachineConfig { vcpu_count: 1, mem_size_mib: 256 }),
            ApiOp::ConfigureBootSource(BootSource {
                kernel_image: "/art/vmlinux".to_owned(),
                boot_args: "console=ttyS0 reboot=k panic=1 pci=off root=/dev/vda ro".to_owned(),
            }),
            ApiOp::ConfigureDrive(Drive {
                drive_id: "rootfs".to_owned(),
                path_on_host: "/art/rootfs.ext4".to_owned(),
                is_root_device: true,
                is_read_only: true,
            }),
            ApiOp::Boot,
        ]
    );
}

#[test]
fn the_console_is_watched_while_there_is_time() {
    let limit = Duration::from_secs(20);
    let again = ConsoleWait::Again(Duration::from_millis(200));
    let shown = || Some("ubuntu login: ".to_owned());
    assert_eq!(wait_for_serial(shown(), "login", at(0), limit), ConsoleWait::Up);
    assert_eq!(wait_for_serial(Some("boot".to_owned()), "login", at(5), limit), again);
    assert_eq!(wait_for_serial(None, "login", at(5), limit), again);
    assert_eq!(wait_for_serial(shown(), "login", limit, limit), ConsoleWait::GiveUp);
}
