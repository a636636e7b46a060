//! The host: quiescence, Firecracker, transfers, the network and the machine.

use std::collections::BTreeMap;

use sleepwalk::hostd::api::{fault_message, quoted, ApiMethod};
use sleepwalk::hostd::compat::detect;
use sleepwalk::hostd::daemon::{route, Answer};
use sleepwalk::hostd::drain::{DrainCoordinator, DrainVerdict};
use sleepwalk::hostd::fc::{FakeFc, FcError, FcOp, RealFc};
use sleepwalk::hostd::firecracker::{
    ApiOp, BootSource, Drive, Firecracker, FirecrackerApi, FirecrackerError, MachineConfig,
    MemBackend, NetworkConfig, SnapshotSource, SnapshotTarget, VsockConfig,
};
use sleepwalk::hostd::guestlink::{
    connect_line, connected, drain_answer, drain_request, handshake, message_text, Dial, DialStep,
    DrainState, LinkError,
};
use sleepwalk::hostd::guestload::VsockTurnDriver;
use sleepwalk::hostd::net::{
    announce, boot_arg, command_line, command_not_run, command_outcome, create, create_tap,
    destroy, parse_ipv4, parse_mac, tap_step, NetError, NetId,
};
use sleepwalk::hostd::process::{launch_args, wait_for_socket, SocketWait};
use sleepwalk::hostd::pseudo_firecracker::PseudoFirecracker;
use sleepwalk::hostd::quiesce::{
    AppLayer, InfraLayer, InfraThresholds, QuiescenceDetector, QuiescenceReport,
};
use sleepwalk::hostd::statedir::VmDir;
use sleepwalk::hostd::sysmem::{parse_pressure, MemoryUse};
use sleepwalk::hostd::telemetry::{
    FREEZE_WINDOW_SECONDS, MIGRATIONS_TOTAL, MIGRATION_FAILURES_TOTAL, SNAPSHOT_BYTES_TOTAL,
};
use sleepwalk::hostd::transfer::{
    is_safe_name, recv_files, send_files, stream_end, FileInMemory, FileSender, Received, Receiver,
    TransferError, CHUNK,
};
use sleepwalk::hostd::uffd::{
    page_size, serve_fault, GuestRegion, MemoryPageSource, PageAnswer, PageFaultServer, UffdError,
};
use sleepwalk::hostd::vm::{LifecycleError, RunState, Vm};
use sleepwalk::proto::ids::{GuestdVersion, Timestamp, TurnId, VmId};
use sleepwalk::proto::vsock::{GuestToHost, HostToGuest};
use sleepwalk::time::Duration;

fn thresholds() -> InfraThresholds {
    InfraThresholds { cpu_pct: 5.0f64.to_bits(), samples: 3 }
}

fn turn(n: u64) -> TurnId {
    TurnId::from_u64(n)
}

fn ts(n: u64) -> Timestamp {
    Timestamp::from_nanos(n)
}

fn quiet(c: &mut DrainCoordinator) {
    c.observe_infra(1.0f64.to_bits(), true);
}

// The drain verdict.

#[test]
fn starts_busy_with_no_evidence() {
    let c = DrainCoordinator::new(thresholds());
    assert_eq!(c.verdict(), DrainVerdict::Busy { in_flight: None });
}

#[test]
fn flips_to_quiescent_only_when_all_three_agree() {
    let mut c = DrainCoordinator::new(thresholds());
    c.observe_guest(&GuestToHost::DrainAck { in_flight: Some(turn(7)) });
    for _ in 0..3 {
        quiet(&mut c);
    }
    c.observe_storage(true);
    assert_eq!(
        c.verdict(),
        DrainVerdict::Busy { in_flight: Some(turn(7)) },
        "the in-flight turn keeps the app layer active"
    );

    c.observe_guest(&GuestToHost::TurnEnded { turn_id: turn(7), ts: ts(1) });
    assert_eq!(c.verdict(), DrainVerdict::Quiescent);
    assert!(c.report().is_quiescent());
}

#[test]
fn infra_holdout_is_busy_without_a_turn() {
    let mut c = DrainCoordinator::new(thresholds());
    c.observe_guest(&GuestToHost::DrainAck { in_flight: None });
    c.observe_storage(true);
    quiet(&mut c);
    quiet(&mut c);
    assert_eq!(c.verdict(), DrainVerdict::Busy { in_flight: None });
}

#[test]
fn turn_started_then_acked_is_the_holdout() {
    let mut c = DrainCoordinator::new(thresholds());
    c.observe_guest(&GuestToHost::TurnStarted { turn_id: turn(3), ts: ts(1) });
    c.observe_guest(&GuestToHost::DrainAck { in_flight: Some(turn(3)) });
    for _ in 0..3 {
        quiet(&mut c);
    }
    c.observe_storage(true);
    assert_eq!(c.verdict(), DrainVerdict::Busy { in_flight: Some(turn(3)) });
}

#[test]
fn liveness_and_handshake_are_ignored() {
    let mut c = DrainCoordinator::new(thresholds());
    c.observe_guest(&GuestToHost::DrainAck { in_flight: None });
    for _ in 0..3 {
        quiet(&mut c);
    }
    c.observe_storage(true);
    assert_eq!(c.verdict(), DrainVerdict::Quiescent);

    c.observe_guest(&GuestToHost::Ping);
    c.observe_guest(&GuestToHost::Resumed { ts: ts(2) });
    assert_eq!(c.verdict(), DrainVerdict::Quiescent);
}

// Quiescence.

#[test]
fn app_layer_needs_gated_and_idle() {
    let mut app = AppLayer::new();
    assert!(!app.is_quiet(), "ungated is active");

    app.turn_started(TurnId::first());
    app.drain_acked(Some(TurnId::first()));
    assert!(!app.is_quiet(), "in-flight turn keeps it active");

    app.turn_ended();
    assert!(app.is_quiet(), "gated + idle is quiet");

    app.drain_cancelled();
    assert!(!app.is_quiet(), "un-gating reactivates");
}

fn sample(infra: &mut InfraLayer, cpu: f64, queues: bool) {
    infra.record(cpu.to_bits(), queues);
}

#[test]
fn infra_layer_needs_a_full_quiet_window() {
    let mut infra = InfraLayer::new(thresholds());
    assert!(!infra.is_quiet(), "no samples yet");

    sample(&mut infra, 1.0, true);
    sample(&mut infra, 2.0, true);
    assert!(!infra.is_quiet(), "window not full");
    sample(&mut infra, 3.0, true);
    assert!(infra.is_quiet(), "three quiet samples + quiet queues");
}

#[test]
fn infra_layer_spike_resets_the_evidence() {
    let mut infra = InfraLayer::new(thresholds());
    for _ in 0..3 {
        sample(&mut infra, 1.0, true);
    }
    assert!(infra.is_quiet());

    sample(&mut infra, 80.0, true);
    assert!(!infra.is_quiet(), "spike in window");

    sample(&mut infra, 1.0, true);
    sample(&mut infra, 1.0, true);
    assert!(!infra.is_quiet(), "spike still in the 3-wide window");
    sample(&mut infra, 1.0, true);
    assert!(infra.is_quiet(), "spike aged out, three quiet again");
}

#[test]
fn infra_layer_busy_queues_block_quiescence() {
    let mut infra = InfraLayer::new(thresholds());
    sample(&mut infra, 1.0, true);
    sample(&mut infra, 1.0, true);
    sample(&mut infra, 1.0, false);
    assert!(!infra.is_quiet());
}

#[test]
fn infra_layer_takes_no_number_for_quiet() {
    let mut infra = InfraLayer::new(thresholds());
    for cpu in [1.0, f64::NAN, 1.0] {
        sample(&mut infra, cpu, true);
    }
    assert!(!infra.is_quiet());
    let mut edge = InfraLayer::new(thresholds());
    for cpu in [1.0, 5.0, 1.0] {
        sample(&mut edge, cpu, true);
    }
    assert!(!edge.is_quiet(), "the threshold itself is not below it");
}

#[test]
fn detector_is_quiescent_only_when_all_three_agree() {
    let mut d = QuiescenceDetector::new(thresholds());
    assert!(!d.is_quiescent());

    d.app.drain_acked(None);
    assert_eq!(d.report(), QuiescenceReport { app: true, infra: false, storage: false });
    assert!(!d.is_quiescent());

    for _ in 0..3 {
        sample(&mut d.infra, 1.0, true);
    }
    assert!(!d.is_quiescent(), "storage still active");

    d.storage.set_caught_up(true);
    assert!(d.is_quiescent(), "all three quiet");
    assert!(d.report().is_quiescent());

    d.app.drain_cancelled();
    assert!(!d.is_quiescent());
}

// Firecracker, by its lifecycle.

#[test]
fn real_boot_sends_instance_start_and_succeeds_on_204() {
    let r = FcOp::Boot.request();
    assert_eq!(r.method, ApiMethod::Put);
    assert_eq!(r.path, "/actions");
    assert_eq!(r.body, r#"{"action_type":"InstanceStart"}"#);
    assert_eq!(RealFc::outcome(FcOp::Boot, 204, b""), Ok(()));
}

#[test]
fn real_pause_sends_patch_vm_paused() {
    let r = FcOp::Pause.request();
    assert_eq!(r.method, ApiMethod::Patch);
    assert_eq!(r.path, "/vm");
    assert_eq!(r.body, r#"{"state":"Paused"}"#);
}

#[test]
fn real_resume_sends_patch_vm_resumed() {
    assert_eq!(FcOp::Resume.request().body, r#"{"state":"Resumed"}"#);
}

#[test]
fn real_shutdown_sends_send_ctrl_alt_del() {
    let r = FcOp::Shutdown.request();
    assert_eq!(r.path, "/actions");
    assert_eq!(r.body, r#"{"action_type":"SendCtrlAltDel"}"#);
}

#[test]
fn real_fault_response_becomes_rejected_with_message() {
    let body = r#"{"fault_message":"cannot start: already running"}"#;
    match RealFc::outcome(FcOp::Boot, 400, body.as_bytes()) {
        Err(FcError::Rejected { op, detail }) => {
            assert_eq!(op, "boot");
            assert_eq!(detail, "cannot start: already running");
        }
        other => panic!("expected Rejected, got {other:?}"),
    }
}

#[test]
fn real_missing_socket_is_unreachable() {
    let fc = RealFc::new("/no/such.sock");
    assert_eq!(fc.socket(), "/no/such.sock");
    let err = RealFc::unreachable(FcOp::Boot, "no such file".to_owned());
    assert!(matches!(err, FcError::Unreachable { op: "boot", .. }));
}

// Firecracker, in full.

fn request(op: ApiOp) -> (ApiMethod, String, String) {
    match op.request() {
        Ok(r) => (r.method, r.path, r.body),
        Err(e) => panic!("{e:?}"),
    }
}

fn json(body: &str) -> serde_json::Value {
    match serde_json::from_str(body) {
        Ok(v) => v,
        Err(e) => panic!("json body: {e}"),
    }
}

#[test]
fn firecracker_boot_sends_instance_start_and_succeeds_on_204() {
    let (method, path, body) = request(ApiOp::Boot);
    assert_eq!(method, ApiMethod::Put);
    assert_eq!(path, "/actions");
    assert_eq!(body, r#"{"action_type":"InstanceStart"}"#);
    assert_eq!(Firecracker::outcome(&ApiOp::Boot, 204, b""), Ok(()));
}

#[test]
fn firecracker_pause_sends_patch_vm_paused() {
    let (method, path, body) = request(ApiOp::Pause);
    assert_eq!(method, ApiMethod::Patch);
    assert_eq!(path, "/vm");
    assert_eq!(body, r#"{"state":"Paused"}"#);
}

#[test]
fn firecracker_resume_sends_patch_vm_resumed() {
    assert_eq!(request(ApiOp::Resume).2, r#"{"state":"Resumed"}"#);
}

#[test]
fn firecracker_shutdown_sends_send_ctrl_alt_del() {
    let (_, path, body) = request(ApiOp::Shutdown);
    assert_eq!(path, "/actions");
    assert_eq!(body, r#"{"action_type":"SendCtrlAltDel"}"#);
}

#[test]
fn firecracker_fault_response_becomes_rejected_with_message() {
    let body = r#"{"fault_message":"cannot start: already running"}"#;
    match Firecracker::outcome(&ApiOp::Boot, 400, body.as_bytes()) {
        Err(FirecrackerError::Rejected { op, detail }) => {
            assert_eq!(op, "boot");
            assert_eq!(detail, "cannot start: already running");
        }
        other => panic!("expected Rejected, got {other:?}"),
    }
}

#[test]
fn firecracker_missing_socket_is_unreachable() {
    let fc = Firecracker::new("/no/such.sock");
    assert_eq!(fc.socket(), "/no/such.sock");
    let err = Firecracker::unreachable(&ApiOp::Boot, "no such file".to_owned());
    assert!(matches!(err, FirecrackerError::Unreachable { op: "boot", .. }));
}

#[test]
fn create_snapshot_sends_paths_and_full_type() {
    let (method, path, body) = request(ApiOp::CreateSnapshot(SnapshotTarget {
        mem_file: "/snap/mem".to_owned(),
        state_file: "/snap/state".to_owned(),
    }));
    assert_eq!(method, ApiMethod::Put);
    assert_eq!(path, "/snapshot/create");
    let body = json(&body);
    assert_eq!(body["mem_file_path"], "/snap/mem");
    assert_eq!(body["snapshot_path"], "/snap/state");
    assert_eq!(body["snapshot_type"], "Full");
}

#[test]
fn load_snapshot_with_uffd_backend_requests_lazy_restore() {
    let (_, path, body) = request(ApiOp::LoadSnapshot(SnapshotSource {
        state_file: "/snap/state".to_owned(),
        backend: MemBackend::Uffd { socket: "/run/uffd.sock".to_owned() },
        resume: true,
    }));
    assert_eq!(path, "/snapshot/load");
    let body = json(&body);
    assert_eq!(body["snapshot_path"], "/snap/state");
    assert_eq!(body["mem_backend"]["backend_type"], "Uffd");
    assert_eq!(body["mem_backend"]["backend_path"], "/run/uffd.sock");
    assert_eq!(body["resume_vm"], true);
}

#[test]
fn load_snapshot_with_file_backend_uses_mem_file() {
    let (_, _, body) = request(ApiOp::LoadSnapshot(SnapshotSource {
        state_file: "/snap/state".to_owned(),
        backend: MemBackend::File { mem_file: "/snap/mem".to_owned() },
        resume: false,
    }));
    let body = json(&body);
    assert_eq!(body["mem_backend"]["backend_type"], "File");
    assert_eq!(body["mem_backend"]["backend_path"], "/snap/mem");
    assert_eq!(body["resume_vm"], false);
}

#[test]
fn configuration_bodies_are_valid_json() {
    let tricky = "a \"quoted\\\n path\u{1}é";
    let (_, path, body) = request(ApiOp::ConfigureDrive(Drive {
        drive_id: "rootfs".to_owned(),
        path_on_host: tricky.to_owned(),
        is_root_device: true,
        is_read_only: false,
    }));
    assert_eq!(path, "/drives/rootfs");
    let v = json(&body);
    assert_eq!(v["path_on_host"], tricky);
    assert_eq!(v["is_root_device"], true);
    assert_eq!(v["is_read_only"], false);
    assert_eq!(body, v.to_string());

    let (_, path, body) = request(ApiOp::ConfigureMachine(MachineConfig {
        vcpu_count: 1,
        mem_size_mib: 256,
    }));
    assert_eq!(path, "/machine-config");
    assert_eq!(body, r#"{"mem_size_mib":256,"vcpu_count":1}"#);

    let (_, path, body) = request(ApiOp::ConfigureBootSource(BootSource {
        kernel_image: "/k".to_owned(),
        boot_args: tricky.to_owned(),
    }));
    assert_eq!(path, "/boot-source");
    assert_eq!(json(&body)["boot_args"], tricky);
    assert_eq!(json(&body)["kernel_image_path"], "/k");

    let (_, path, body) = request(ApiOp::ConfigureVsock(VsockConfig {
        guest_cid: 3,
        uds_path: "/v.sock".to_owned(),
    }));
    assert_eq!(path, "/vsock");
    assert_eq!(body, r#"{"guest_cid":3,"uds_path":"/v.sock"}"#);

    let (_, path, body) = request(ApiOp::ConfigureNetwork(NetworkConfig {
        iface_id: "eth0".to_owned(),
        host_dev_name: "sw-tap0".to_owned(),
        guest_mac: "02:00:00:00:00:02".to_owned(),
    }));
    assert_eq!(path, "/network-interfaces/eth0");
    assert_eq!(
        body,
        r#"{"guest_mac":"02:00:00:00:00:02","host_dev_name":"sw-tap0","iface_id":"eth0"}"#
    );
}

#[test]
fn text_is_quoted_as_json() {
    assert_eq!(
        quoted("\u{1}\u{8}\u{c}\u{1f}\"\\\n\r\t é/\u{7f}"),
        Ok("\"\\u0001\\b\\f\\u001f\\\"\\\\\\n\\r\\t é/\u{7f}\"".to_owned())
    );
    let s = "tab\t \"x\" \u{7f} \u{1f600}";
    assert_eq!(quoted(s), serde_json::to_string(s).map_err(|e| e.to_string()));
}

#[test]
fn a_fault_is_told_as_well_as_can_be() {
    assert_eq!(fault_message(br#"{"fault_message":"no"}"#, 400), "no");
    assert_eq!(fault_message(br#"{"fault_message":7}"#, 400), r#"HTTP 400: {"fault_message":7}"#);
    assert_eq!(fault_message(b"oops", 500), "HTTP 500: oops");
    assert_eq!(fault_message(b"\xff", 500), "HTTP 500: \u{fffd}");
    assert_eq!(fault_message(b"", 502), "HTTP 502");
}

#[test]
fn only_204_is_success() {
    let r = Firecracker::outcome(&ApiOp::Pause, 200, b"");
    assert_eq!(
        r,
        Err(FirecrackerError::Rejected { op: "pause", detail: "HTTP 200".to_owned() })
    );
}

#[test]
fn the_stand_in_records_and_fails_on_demand() {
    let mut fc = PseudoFirecracker::new();
    assert_eq!(fc.boot(), Ok(()));
    fc.reject_next("pause");
    assert!(matches!(fc.pause(), Err(FirecrackerError::Rejected { op: "pause", .. })));
    fc.unreachable_next("resume");
    assert!(matches!(fc.resume(), Err(FirecrackerError::Unreachable { op: "resume", .. })));
    assert_eq!(fc.resume(), Ok(()));
    assert_eq!(fc.calls(), &vec!["boot", "pause", "resume", "resume"]);
}

// The VM's lifecycle.

fn fresh_vm() -> Vm<FakeFc> {
    Vm::new(VmId::from_uuid(0), FakeFc::new())
}

#[test]
fn full_lifecycle_issues_ops_in_order() {
    let mut vm = fresh_vm();
    assert_eq!(vm.state(), RunState::Created);
    assert!(vm.boot().is_ok());
    assert_eq!(vm.state(), RunState::Running);
    assert!(vm.pause().is_ok());
    assert_eq!(vm.state(), RunState::Paused);
    assert!(vm.resume().is_ok());
    assert_eq!(vm.state(), RunState::Running);
    assert!(vm.shutdown().is_ok());
    assert_eq!(vm.state(), RunState::Stopped);

    assert_eq!(vm.firecracker().calls(), &vec!["boot", "pause", "resume", "shutdown"]);
}

#[test]
fn pause_before_boot_is_rejected_without_calling_fc() {
    let mut vm = fresh_vm();
    assert!(matches!(
        vm.pause(),
        Err(LifecycleError::IllegalTransition { from: RunState::Created, op: "pause" })
    ));
    assert!(vm.firecracker().calls().is_empty());
    assert_eq!(vm.state(), RunState::Created);
}

#[test]
fn resume_while_running_is_rejected() {
    let mut vm = fresh_vm();
    assert!(vm.boot().is_ok());
    assert!(matches!(
        vm.resume(),
        Err(LifecycleError::IllegalTransition { from: RunState::Running, .. })
    ));
    assert_eq!(vm.state(), RunState::Running);
}

#[test]
fn double_shutdown_is_rejected() {
    let mut vm = fresh_vm();
    assert!(vm.boot().is_ok());
    assert!(vm.shutdown().is_ok());
    assert!(matches!(
        vm.shutdown(),
        Err(LifecycleError::IllegalTransition { from: RunState::Stopped, .. })
    ));
}

#[test]
fn firecracker_failure_leaves_state_unchanged() {
    let mut vm = fresh_vm();
    vm.firecracker_mut().reject_next("boot");
    assert!(matches!(
        vm.boot(),
        Err(LifecycleError::Fc(FcError::Rejected { op: "boot", .. }))
    ));
    assert_eq!(vm.state(), RunState::Created);
    assert!(vm.boot().is_ok());
    assert_eq!(vm.state(), RunState::Running);
}

#[test]
fn unreachable_firecracker_surfaces_as_fc_error() {
    let mut vm = fresh_vm();
    assert!(vm.boot().is_ok());
    vm.firecracker_mut().unreachable_next("pause");
    assert!(matches!(
        vm.pause(),
        Err(LifecycleError::Fc(FcError::Unreachable { op: "pause", .. }))
    ));
    assert_eq!(vm.state(), RunState::Running);
}

#[test]
fn a_vm_knows_its_id() {
    assert_eq!(fresh_vm().id(), VmId::from_uuid(0));
}

// Transfers.

fn file(name: &str, data: &[u8]) -> FileInMemory {
    FileInMemory { name: name.to_owned(), data: data.to_vec() }
}

#[test]
fn round_trips_files_byte_for_byte() {
    let mut buf: Vec<u8> = Vec::new();
    let files = vec![file("mem", &[0xABu8; 200_000]), file("state", b"vmstate-blob")];
    assert_eq!(send_files(&mut buf, &files), Ok(()));

    let Ok(written) = recv_files(&buf) else {
        panic!("recv");
    };
    assert_eq!(written.len(), 2);
    assert_eq!(written[0].name, "mem");
    assert_eq!(written[0].data, vec![0xABu8; 200_000]);
    assert_eq!(written[1].name, "state");
    assert_eq!(written[1].data, b"vmstate-blob");
}

#[test]
fn corruption_in_transit_is_caught_by_the_checksum() {
    let mut buf: Vec<u8> = Vec::new();
    assert_eq!(send_files(&mut buf, &vec![file("f", b"abcdefghij")]), Ok(()));
    buf[11 + 4] ^= 0xFF;
    assert!(matches!(recv_files(&buf), Err(TransferError::Checksum { .. })));
}

#[test]
fn a_name_that_escapes_the_dir_is_rejected() {
    let mut buf: Vec<u8> = Vec::new();
    let name = b"../evil";
    buf.extend_from_slice(&(name.len() as u16).to_be_bytes());
    buf.extend_from_slice(name);
    buf.extend_from_slice(&0u64.to_be_bytes());
    buf.extend_from_slice(&0u32.to_be_bytes());
    buf.extend_from_slice(&0u16.to_be_bytes());
    assert!(matches!(recv_files(&buf), Err(TransferError::Protocol(_))));
}

#[test]
fn empty_transfer_writes_nothing() {
    let mut buf: Vec<u8> = Vec::new();
    assert_eq!(send_files(&mut buf, &vec![]), Ok(()));
    let Ok(written) = recv_files(&buf) else {
        panic!("recv");
    };
    assert!(written.is_empty());
}

#[test]
fn the_checksum_is_crc32() {
    let mut buf: Vec<u8> = Vec::new();
    assert_eq!(send_files(&mut buf, &vec![file("f", b"123456789")]), Ok(()));
    let mut expected = vec![0, 1, b'f'];
    expected.extend_from_slice(&9u64.to_be_bytes());
    expected.extend_from_slice(b"123456789");
    expected.extend_from_slice(&0xCBF4_3926u32.to_be_bytes());
    expected.extend_from_slice(&[0, 0]);
    assert_eq!(buf, expected);
    assert_eq!(stream_end(), vec![0, 0]);
}

#[test]
fn a_file_can_be_sent_in_pieces() {
    let data: Vec<u8> = (0..CHUNK * 2 + 5).map(|i| (i % 251) as u8).collect();
    let Ok((mut sender, mut out)) = FileSender::begin("big", data.len() as u64) else {
        panic!("begin");
    };
    let mut at = 0;
    while sender.want() > 0 {
        let n = sender.want();
        assert!(n <= CHUNK);
        let piece = &data[at..at + n];
        out.extend_from_slice(piece);
        at += n;
        sender = match sender.chunk(piece) {
            Ok(next) => next,
            Err(e) => panic!("{e:?}"),
        };
    }
    out.extend_from_slice(&sender.trailer());
    out.extend_from_slice(&stream_end());
    let mut whole: Vec<u8> = Vec::new();
    assert_eq!(send_files(&mut whole, &vec![file("big", &data)]), Ok(()));
    assert_eq!(out, whole);
}

#[test]
fn a_stream_can_be_received_in_pieces() {
    let mut buf: Vec<u8> = Vec::new();
    assert_eq!(send_files(&mut buf, &vec![file("a", b"xyz"), file("b", b"")]), Ok(()));
    let mut receiver = Receiver::new();
    let mut at = 0;
    let mut seen = Vec::new();
    loop {
        let n = receiver.want();
        let (next, received) = match receiver.feed(&buf[at..at + n]) {
            Ok(out) => out,
            Err(e) => panic!("{e:?}"),
        };
        at += n;
        receiver = next;
        let over = received == Received::End;
        if received != Received::Nothing {
            seen.push(received);
        }
        if over {
            break;
        }
    }
    assert_eq!(
        seen,
        vec![
            Received::Create("a".to_owned()),
            Received::Append,
            Received::Accept("a".to_owned()),
            Received::Create("b".to_owned()),
            Received::Accept("b".to_owned()),
            Received::End,
        ]
    );
    assert_eq!(at, buf.len());
}

#[test]
fn a_stream_that_breaks_off_is_an_io_error() {
    let mut buf: Vec<u8> = Vec::new();
    assert_eq!(send_files(&mut buf, &vec![file("f", b"abc")]), Ok(()));
    for n in 0..buf.len() {
        assert!(matches!(recv_files(&buf[..n]), Err(TransferError::Io(_))), "{n}");
    }
}

#[test]
fn a_name_must_be_utf8_and_safe() {
    let mut buf = vec![0, 1, 0xff];
    buf.extend_from_slice(&0u64.to_be_bytes());
    assert!(matches!(recv_files(&buf), Err(TransferError::Protocol(_))));
    for name in ["a", "mem.snap", ".a", "."] {
        assert!(is_safe_name(name), "{name}");
    }
    for name in ["", "..", "a..b", "a/b", "/a", "a\\b"] {
        assert!(!is_safe_name(name), "{name}");
    }
}

#[test]
fn a_name_too_long_is_not_sent() {
    let mut buf: Vec<u8> = Vec::new();
    let name = "n".repeat(70_000);
    assert!(matches!(
        send_files(&mut buf, &vec![file(&name, b"")]),
        Err(TransferError::Protocol(_))
    ));
}

// State directories.

#[test]
fn paths_are_namespaced_under_vm_id() {
    let dir = VmDir::new("/srv/state", VmId::from_uuid(0));
    assert_eq!(dir.root(), "/srv/state/vms/00000000-0000-0000-0000-000000000000");
    assert!(dir.api_socket().ends_with("api.sock"));
    assert!(dir.api_socket().starts_with(dir.root()));
    assert!(dir.log_fifo().starts_with(dir.root()));
}

#[test]
fn distinct_vms_get_distinct_dirs() {
    let a = VmDir::new("/srv/state", VmId::new());
    let b = VmDir::new("/srv/state", VmId::new());
    assert_ne!(a.root(), b.root());
}

// Memory.

fn pressure(m: Option<MemoryUse>) -> Option<f64> {
    m.map(|m| m.in_use as f64 / m.total as f64)
}

#[test]
fn parses_in_use_fraction_from_available() {
    let sample = format!(
        "{}{}{}{}",
        "MemTotal:        1000000 kB\n",
        "MemFree:          100000 kB\n",
        "MemAvailable:     250000 kB\n",
        "Buffers:           20000 kB\n"
    );
    let Some(p) = pressure(parse_pressure(&sample)) else {
        panic!("parses");
    };
    assert!((p - 0.75).abs() < 1e-9, "got {p}");
}

#[test]
fn missing_fields_yield_none() {
    assert!(parse_pressure("MemTotal: 1000 kB\n").is_none());
    assert!(parse_pressure("MemAvailable: 500 kB\n").is_none());
    assert!(parse_pressure("").is_none());
}

#[test]
fn zero_total_is_none() {
    assert!(parse_pressure("MemTotal: 0 kB\nMemAvailable: 0 kB\n").is_none());
}

#[test]
fn full_and_empty_extremes() {
    assert_eq!(
        pressure(parse_pressure("MemTotal: 100 kB\nMemAvailable: 0 kB\n")),
        Some(1.0)
    );
    assert_eq!(
        pressure(parse_pressure("MemTotal: 100 kB\nMemAvailable: 100 kB\n")),
        Some(0.0)
    );
}

#[test]
fn the_last_reading_stands() {
    let m = parse_pressure("MemTotal: 9 kB\nMemTotal: 100 kB\nMemAvailable: 120 kB\n");
    assert_eq!(m, Some(MemoryUse { in_use: 0, total: 100 }));
    assert!(parse_pressure("MemTotal: 9 kB\nMemTotal: x\nMemAvailable: 1 kB\n").is_none());
}

// The network.

#[test]
fn parses_mac_and_ip() {
    assert_eq!(parse_mac("02:00:00:00:00:02"), Ok([0x02, 0, 0, 0, 0, 0x02]));
    assert_eq!(parse_ipv4("10.200.0.2"), Ok([10, 200, 0, 2]));
}

#[test]
fn rejects_malformed() {
    assert!(parse_mac("02:00:00").is_err());
    assert!(parse_mac("zz:00:00:00:00:00").is_err());
    assert!(parse_ipv4("10.200.0").is_err());
    assert!(parse_ipv4("10.200.0.999").is_err());
    assert_eq!(parse_mac("x"), Err(NetError::Announce("bad mac x".to_owned())));
    assert_eq!(parse_ipv4("y"), Err(NetError::Announce("bad ip y".to_owned())));
}

fn net() -> NetId {
    match create(7) {
        Ok(net) => net,
        Err(e) => panic!("{e:?}"),
    }
}

#[test]
fn identities_follow_the_index() {
    assert_eq!(
        net(),
        NetId {
            tap: "sw-tap7".to_owned(),
            mac: "02:00:00:00:00:09".to_owned(),
            ip: "10.200.0.9".to_owned(),
        }
    );
    assert!(create(252).is_ok());
    assert_eq!(create(253), Err(NetError::OutOfRange(253)));
    assert_eq!(
        NetError::OutOfRange(253).to_text(),
        "vm network index 253 out of range (max 252)"
    );
    assert_eq!(
        boot_arg(&net()),
        "ip=10.200.0.9::10.200.0.1:255.255.255.0::eth0:off"
    );
}

#[test]
fn taps_are_plumbed_by_ip_commands() {
    let commands = create_tap("sw-tap0");
    let lines: Vec<String> = commands.iter().map(command_line).collect();
    assert_eq!(
        lines,
        vec![
            "ip tuntap add sw-tap0 mode tap",
            "ip link set sw-tap0 master br-sw",
            "ip link set sw-tap0 up",
        ]
    );
    let del = destroy("sw-tap0");
    assert_eq!(command_line(&del), "ip link del sw-tap0");
    assert_eq!(command_outcome(&del, true, b"noise"), Ok(()));
    let Err(failed) = command_outcome(&del, false, b" Cannot find device \n") else {
        panic!("must fail");
    };
    assert_eq!(failed.to_text(), "`ip link del sw-tap0` failed: Cannot find device");
    assert_eq!(
        command_not_run(&del, "no ip".to_owned()),
        NetError::Command { cmd: "ip link del sw-tap0".to_owned(), detail: "no ip".to_owned() }
    );
}

#[test]
fn the_announcement_is_a_gratuitous_arp() {
    let Ok(frame) = announce(&net()) else {
        panic!("announces");
    };
    let mac = [2, 0, 0, 0, 0, 9];
    let ip = [10, 200, 0, 9];
    let mut expected = vec![0xff; 6];
    expected.extend_from_slice(&mac);
    expected.extend_from_slice(&[0x08, 0x06, 0, 1, 0x08, 0, 6, 4, 0, 1]);
    expected.extend_from_slice(&mac);
    expected.extend_from_slice(&ip);
    expected.extend_from_slice(&frame[32..38]);
    expected.extend_from_slice(&ip);
    assert_eq!(frame.to_vec(), expected);
    let bad = NetId { mac: "nope".to_owned(), ..net() };
    assert!(matches!(announce(&bad), Err(NetError::Announce(_))));
}

// The host's class.

#[test]
fn the_class_is_read_from_the_kernel() {
    let cpuinfo = "processor\t: 0\nvendor_id\t: GenuineIntel\nmodel name\t: Xeon: Gold\nvendor_id : X\n";
    let class = detect(cpuinfo, Some("6.1.155\n".to_owned()), 1_995_000);
    assert_eq!(class.vendor, "GenuineIntel");
    assert_eq!(class.model, "Xeon: Gold");
    assert_eq!(class.kernel, "6.1.155");
    assert_eq!(class.tsc_khz, 1_995_000);
    let unknown = detect("", None, 0);
    assert_eq!(unknown.vendor, "unknown");
    assert_eq!(unknown.model, "unknown");
    assert_eq!(unknown.kernel, "unknown");
}

// Pages.

#[test]
fn pages_are_served_and_holes_are_zero() {
    let page = 4096;
    let mut snapshot = Vec::new();
    for p in 1u8..=3 {
        snapshot.extend_from_slice(&vec![p; page]);
    }
    snapshot.truncate(page * 2 + 10);
    let base = 0x10000;
    let region = GuestRegion::new(base, page * 4, page);
    let server = PageFaultServer::new(region, MemoryPageSource::new(snapshot));

    assert_eq!(
        server.serve_page(base + 5),
        Ok(PageAnswer::Copy { at: base, page: vec![1; page] })
    );
    let mut short = vec![3; 10];
    short.resize(page, 0);
    assert_eq!(
        server.serve_page(base + 2 * page + page - 1),
        Ok(PageAnswer::Copy { at: base + 2 * page, page: short })
    );
    assert_eq!(
        server.serve_page(base + 3 * page),
        Ok(PageAnswer::Zero { at: base + 3 * page })
    );
    let end = base + 4 * page;
    for addr in [base - 1, end, 0, usize::MAX] {
        assert_eq!(
            server.serve_page(addr),
            Err(UffdError::OutOfRange { addr, base, end })
        );
    }
}

#[test]
fn serves_pages_lazily_and_zeros_holes() {
    let page = page_size(4096);
    let mut snapshot = Vec::new();
    for p in 0u8..3 {
        snapshot.extend_from_slice(&vec![p + 1; page]);
    }
    let base = 0x7f00_0000;
    let server = PageFaultServer::new(
        GuestRegion::new(base, page * 4, page),
        MemoryPageSource::new(snapshot),
    );
    let mut seen = Vec::new();
    for i in 0..4usize {
        match server.serve_page(base + i * page) {
            Ok(PageAnswer::Copy { at, page: bytes }) => {
                assert_eq!((at, bytes.len()), (base + i * page, page));
                seen.push((bytes[0], bytes[page - 1]));
            }
            Ok(PageAnswer::Zero { at }) => {
                assert_eq!(at, base + i * page);
                seen.push((0, 0));
            }
            Err(e) => panic!("not served: {e:?}"),
        }
    }
    assert_eq!(seen, vec![(1, 1), (2, 2), (3, 3), (0, 0)]);
}

#[test]
fn a_fault_is_served_by_the_region_that_holds_it() {
    let page = 4096;
    let servers = vec![
        PageFaultServer::new(GuestRegion::new(0x10000, page, page), MemoryPageSource::new(vec![1])),
        PageFaultServer::new(
            GuestRegion::new(0x20000, page, page),
            MemoryPageSource::new(Vec::new()),
        ),
    ];
    let mut first = vec![0; page];
    first[0] = 1;
    assert_eq!(
        serve_fault(&servers, 0x10005),
        Ok(PageAnswer::Copy { at: 0x10000, page: first })
    );
    assert_eq!(serve_fault(&servers, 0x20fff), Ok(PageAnswer::Zero { at: 0x20000 }));
    assert_eq!(
        serve_fault(&servers, 0x30000),
        Err(UffdError::OutOfRange { addr: 0x30000, base: 0, end: 0 })
    );
}

#[test]
fn the_first_failure_stops_a_tap() {
    assert_eq!(tap_step(0, Ok(())), Ok(Some(1)));
    assert_eq!(tap_step(1, Ok(())), Ok(Some(2)));
    assert_eq!(tap_step(2, Ok(())), Ok(None));
    let commands = create_tap("sw-tap0");
    let failure = || command_outcome(&commands[1], false, b"no bridge");
    assert!(failure().is_err());
    assert_eq!(tap_step(1, failure()).err(), failure().err());
}

#[test]
fn the_page_size_has_a_fallback() {
    assert_eq!(page_size(16384), 16384);
    assert_eq!(page_size(-1), 4096);
    assert_eq!(page_size(0), 4096);
}

// The link to a guest.

#[test]
fn a_connection_is_asked_for_and_answered() {
    assert_eq!(connect_line(5252), "CONNECT 5252\n");
    assert_eq!(connected(5252, "OK 1073741824\n"), Ok(()));
    assert_eq!(
        connected(5252, "FAILURE\n"),
        Err(LinkError::Refused("vsock CONNECT to port 5252 failed: FAILURE".to_owned()))
    );
    assert_eq!(message_text(3, "{}\n"), Ok("{}".to_owned()));
    assert_eq!(message_text(0, ""), Err(LinkError::Closed));
}

#[test]
fn the_handshake_wants_a_greeting() {
    let hello = GuestToHost::Hello {
        vm_id: VmId::from_uuid(1),
        guestd_version: GuestdVersion::new("0.1.0"),
    };
    let mut env = BTreeMap::new();
    env.insert("K".to_owned(), "V".to_owned());
    assert_eq!(handshake(hello, env.clone()), Ok(HostToGuest::Secrets { env }));
    assert_eq!(
        handshake(GuestToHost::Ping, BTreeMap::new()),
        Err(LinkError::NoHello(GuestToHost::Ping))
    );
}

#[test]
fn only_an_ack_answers_a_drain() {
    assert_eq!(
        drain_request(Duration::from_secs(5)),
        HostToGuest::DrainRequest { deadline: Duration::from_secs(5) }
    );
    assert_eq!(
        drain_answer(&GuestToHost::DrainAck { in_flight: None }),
        Some(DrainState::Quiescent)
    );
    assert_eq!(
        drain_answer(&GuestToHost::DrainAck { in_flight: Some(turn(0)) }),
        Some(DrainState::Busy)
    );
    assert_eq!(drain_answer(&GuestToHost::Pong), None);
}

#[test]
fn dialing_goes_on_until_time_is_up() {
    let mut dial = Dial::new(Duration::from_secs(20));
    assert_eq!(dial.next(Duration::from_secs(0)), DialStep::Attempt);
    assert_eq!(
        dial.failed("refused".to_owned()),
        DialStep::Wait(Duration::from_millis(200))
    );
    assert_eq!(dial.next(Duration::from_secs(19)), DialStep::Attempt);
    assert_eq!(
        dial.next(Duration::from_secs(20)),
        DialStep::GiveUp("refused".to_owned())
    );
    let late = Dial::new(Duration::zero());
    assert_eq!(late.next(Duration::zero()), DialStep::GiveUp("no attempt".to_owned()));
}

#[test]
fn turns_on_the_wire_end_or_are_dropped() {
    let mut driver = VsockTurnDriver::new();
    assert_eq!(driver.run_turn(1), HostToGuest::RunTurn { turn_id: turn(1) });
    driver.run_turn(2);
    driver.run_turn(3);
    let ended = GuestToHost::TurnEnded { turn_id: turn(1), ts: ts(0) };
    assert_eq!(driver.heard(&ended), Some(turn(1)));
    assert_eq!(driver.heard(&ended), None, "already ended");
    assert_eq!(driver.heard(&GuestToHost::Pong), None);
    driver.expired(2);
    driver.unsent(3);
    assert_eq!(driver.dropped(), 1);
    driver.run_turn(4);
    driver.closed();
    assert_eq!(driver.heard(&GuestToHost::TurnEnded { turn_id: turn(4), ts: ts(0) }), None);
    assert_eq!(driver.dropped(), 1);
}

// The process and the daemon.

#[test]
fn a_process_is_waited_for() {
    assert_eq!(launch_args("/a.sock"), ("--api-sock".to_owned(), "/a.sock".to_owned()));
    let deadline = Duration::from_secs(10);
    let soon = Duration::from_secs(1);
    assert_eq!(wait_for_socket(true, Some("x".to_owned()), deadline, deadline), SocketWait::Ready);
    assert_eq!(
        wait_for_socket(false, Some("exit status: 1".to_owned()), soon, deadline),
        SocketWait::Exited(
            "firecracker exited before its API socket appeared: exit status: 1".to_owned()
        )
    );
    assert_eq!(wait_for_socket(false, None, deadline, deadline), SocketWait::TimedOut);
    assert_eq!(
        wait_for_socket(false, None, soon, deadline),
        SocketWait::Again(Duration::from_millis(50))
    );
}

#[test]
fn the_daemon_answers_by_path() {
    let metrics = "m 1\n".to_owned();
    assert_eq!(
        route("/healthz", metrics.clone()),
        Answer { status: 200, body: "ok\n".to_owned() }
    );
    assert_eq!(
        route("/metrics", metrics.clone()),
        Answer { status: 200, body: metrics.clone() }
    );
    assert_eq!(
        route("/", metrics),
        Answer { status: 404, body: "not found\n".to_owned() }
    );
}

#[test]
fn metrics_have_their_names() {
    assert_eq!(MIGRATIONS_TOTAL, "sleepwalk_migrations_total");
    assert_eq!(MIGRATION_FAILURES_TOTAL, "sleepwalk_migration_failures_total");
    assert_eq!(FREEZE_WINDOW_SECONDS, "sleepwalk_freeze_window_seconds");
    assert_eq!(SNAPSHOT_BYTES_TOTAL, "sleepwalk_snapshot_bytes_total");
}
