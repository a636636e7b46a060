//! Placement, the driver of one migration, and the control loop.

use sleepwalk::ordered::OrderedMap;
use sleepwalk::proto::compat::CompatClass;
use sleepwalk::proto::fsm::Migration;
use sleepwalk::proto::ids::{HostId, TurnId, VmId};
use sleepwalk::proto::state;
use sleepwalk::rebalancer::config::{
    accepted, assemble, recv_url, send_url, HostConfig, IDLE_SECS,
};
use sleepwalk::rebalancer::control::{
    rebalance_once, CtlError, Fleet, HostEndpoint, PseudoDaemon,
};
use sleepwalk::rebalancer::dial::{dial_target, target_of, DialTarget, UriParts};
use sleepwalk::rebalancer::driver::{drive, AbortReason, MigrationError, MigrationOutcome};
use sleepwalk::rebalancer::executor::{DrainOutcome, ExecError};
use sleepwalk::rebalancer::placement::{pick_victim, Placement, Pressure, Rebalance};
use sleepwalk::rebalancer::pseudo_executor::PseudoExecutor;
use sleepwalk::time::Duration;

fn host(name: &str) -> HostId {
    HostId::new(name)
}

fn vm() -> VmId {
    VmId::new()
}

fn pressure(value: f64) -> Pressure {
    Pressure::new(value.to_bits())
}

fn klass(tsc_khz: u32) -> CompatClass {
    CompatClass {
        vendor: "GenuineIntel".to_owned(),
        model: "Xeon".to_owned(),
        tsc_khz,
        kernel: "6.1.155".to_owned(),
    }
}

fn classes(entries: &[(&str, u32)]) -> OrderedMap<HostId, CompatClass> {
    let mut map = OrderedMap::new();
    for (name, tsc) in entries {
        map.insert(host(name), klass(*tsc));
    }
    map
}

fn compat() -> OrderedMap<HostId, CompatClass> {
    classes(&[("a", 2_000_000), ("b", 2_000_000), ("c", 2_000_000)])
}

fn pressures(entries: &[(&str, f64)]) -> OrderedMap<HostId, Pressure> {
    let mut map = OrderedMap::new();
    for (name, value) in entries {
        map.insert(host(name), pressure(*value));
    }
    map
}

fn idle(entries: &[(VmId, Duration)]) -> OrderedMap<VmId, Duration> {
    let mut map = OrderedMap::new();
    for (id, span) in entries {
        map.insert(*id, *span);
    }
    map
}

// Placement.

#[test]
fn pressures_are_compared_by_number() {
    assert_eq!(pressure(0.0), pressure(-0.0));
    assert_eq!(pressure(-3.0), pressure(f64::NAN));
    assert_ne!(pressure(0.5), pressure(0.25));
}

#[test]
fn picks_most_idle_vm_on_hottest_host() {
    let busy = vm();
    let idle_vm = vm();
    let mut placement = Placement::new();
    placement.assign(host("a"), busy);
    placement.assign(host("a"), idle_vm);
    placement.assign(host("b"), vm());

    let pick = pick_victim(
        &placement,
        &pressures(&[("a", 0.95), ("b", 0.20)]),
        &idle(&[(busy, Duration::from_secs(1)), (idle_vm, Duration::from_secs(60))]),
        pressure(0.80),
        &compat(),
    );
    assert_eq!(pick, Some(Rebalance { vm: idle_vm, from: host("a"), to: host("b") }));
}

#[test]
fn no_move_when_nothing_is_overloaded() {
    let v = vm();
    let mut placement = Placement::new();
    placement.assign(host("a"), v);
    assert_eq!(
        pick_victim(
            &placement,
            &pressures(&[("a", 0.50), ("b", 0.10)]),
            &idle(&[(v, Duration::from_secs(30))]),
            pressure(0.80),
            &compat(),
        ),
        None
    );
}

#[test]
fn no_move_when_no_host_is_cooler() {
    let v = vm();
    let mut placement = Placement::new();
    placement.assign(host("a"), v);
    assert_eq!(
        pick_victim(
            &placement,
            &pressures(&[("a", 0.95), ("b", 0.95)]),
            &idle(&[(v, Duration::from_secs(30))]),
            pressure(0.80),
            &compat(),
        ),
        None
    );
}

#[test]
fn no_move_when_hottest_host_is_empty() {
    let placement = Placement::new();
    assert_eq!(
        pick_victim(
            &placement,
            &pressures(&[("a", 0.99), ("b", 0.10)]),
            &idle(&[]),
            pressure(0.80),
            &compat(),
        ),
        None
    );
}

#[test]
fn missing_idleness_counts_as_busy() {
    let unknown = vm();
    let known_idle = vm();
    let mut placement = Placement::new();
    placement.assign(host("a"), unknown);
    placement.assign(host("a"), known_idle);

    let pick = pick_victim(
        &placement,
        &pressures(&[("a", 0.95), ("b", 0.10)]),
        &idle(&[(known_idle, Duration::from_millis(1))]),
        pressure(0.80),
        &compat(),
    );
    let Some(pick) = pick else {
        panic!("a move should be chosen");
    };
    assert_eq!(pick.vm, known_idle);
}

#[test]
fn no_move_when_only_cooler_host_is_incompatible() {
    let v = vm();
    let mut placement = Placement::new();
    placement.assign(host("a"), v);
    assert_eq!(
        pick_victim(
            &placement,
            &pressures(&[("a", 0.95), ("b", 0.10)]),
            &idle(&[(v, Duration::from_secs(30))]),
            pressure(0.80),
            &classes(&[("a", 1_995_000), ("b", 2_100_000)]),
        ),
        None
    );
}

#[test]
fn skips_incompatible_cooler_host_for_a_compatible_one() {
    let v = vm();
    let mut placement = Placement::new();
    placement.assign(host("a"), v);
    let pick = pick_victim(
        &placement,
        &pressures(&[("a", 0.95), ("b", 0.05), ("c", 0.40)]),
        &idle(&[(v, Duration::from_secs(30))]),
        pressure(0.80),
        &classes(&[("a", 2_000_000), ("b", 2_100_000), ("c", 2_000_000)]),
    );
    let Some(pick) = pick else {
        panic!("a compatible move exists");
    };
    assert_eq!(pick.to, host("c"));
}

#[test]
fn pressure_clamps_and_rejects_non_finite() {
    assert_eq!(f64::from_bits(pressure(1.5).get()), 1.0);
    assert_eq!(f64::from_bits(pressure(-0.5).get()), 0.0);
    assert_eq!(f64::from_bits(pressure(f64::NAN).get()), 0.0);
    assert_eq!(f64::from_bits(pressure(0.42).get()), 0.42);
    assert_eq!(f64::from_bits(pressure(f64::INFINITY).get()), 0.0);
}

#[test]
fn vms_and_hosts_are_listed_in_order() {
    let (a, b) = (vm(), vm());
    let mut placement = Placement::new();
    placement.assign(host("z"), b);
    placement.assign(host("y"), a);
    placement.assign(host("z"), a);
    assert_eq!(placement.vms_on(&host("z")), vec![b, a]);
    assert_eq!(placement.vms_on(&host("x")), vec![]);
    assert_eq!(placement.hosts(), vec![host("y"), host("z")]);
}

#[test]
fn equal_pressure_is_settled_by_name() {
    let v = vm();
    let w = vm();
    let mut placement = Placement::new();
    placement.assign(host("a"), v);
    placement.assign(host("b"), w);
    let pick = pick_victim(
        &placement,
        &pressures(&[("a", 0.9), ("b", 0.9), ("c", 0.1)]),
        &idle(&[(v, Duration::from_secs(5)), (w, Duration::from_secs(9))]),
        pressure(0.80),
        &compat(),
    );
    assert_eq!(pick, Some(Rebalance { vm: v, from: host("a"), to: host("c") }));
}

#[test]
fn no_vm_is_chosen_on_missing_evidence() {
    let v = VmId::from_uuid(0);
    let mut placement = Placement::new();
    placement.assign(host("a"), v);
    let hot = pressures(&[("a", 0.95), ("b", 0.10)]);
    assert_eq!(pick_victim(&placement, &hot, &idle(&[]), pressure(0.80), &compat()), None);

    let w = VmId::from_uuid(1);
    placement.assign(host("a"), w);
    assert_eq!(
        pick_victim(
            &placement,
            &hot,
            &idle(&[(w, Duration::from_secs(0))]),
            pressure(0.80),
            &compat(),
        ),
        Some(Rebalance { vm: w, from: host("a"), to: host("b") })
    );
}

// The driver.

fn intent() -> Migration<state::Intent> {
    Migration::intent(VmId::new(), HostId::new("a"), HostId::new("b"))
}

fn deadline() -> Duration {
    Duration::from_secs(5)
}

#[test]
fn quiescent_drain_completes_in_order() {
    let mut exec = PseudoExecutor::new();
    let outcome = drive(intent(), &mut exec, deadline());
    assert_eq!(outcome, Ok(MigrationOutcome::Completed));
    assert_eq!(
        exec.calls(),
        &vec!["request_drain", "snapshot", "transfer", "restore", "cutover", "cleanup"]
    );
}

#[test]
fn busy_drain_aborts_without_snapshotting() {
    let mut exec = PseudoExecutor::with_drain(DrainOutcome::Busy { in_flight: None });
    let outcome = drive(intent(), &mut exec, deadline());
    assert_eq!(outcome, Ok(MigrationOutcome::Aborted(AbortReason::NotQuiescent)));
    assert_eq!(exec.calls(), &vec!["request_drain", "cancel_drain"]);
    assert!(!exec.calls().contains(&"snapshot"), "must not snapshot a busy guest");
}

fn failed_op(r: Result<MigrationOutcome, MigrationError>) -> &'static str {
    match r {
        Err(MigrationError::Executor(e)) => e.op,
        Ok(_) => panic!("must fail"),
    }
}

#[test]
fn drain_request_failure_propagates() {
    let mut exec = PseudoExecutor::new();
    exec.fail_on("request_drain", "vsock down");
    assert_eq!(failed_op(drive(intent(), &mut exec, deadline())), "request_drain");
    assert_eq!(exec.calls(), &vec!["request_drain"]);
}

#[test]
fn snapshot_failure_does_not_roll_back() {
    let mut exec = PseudoExecutor::new();
    exec.fail_on("snapshot", "disk full");
    assert_eq!(failed_op(drive(intent(), &mut exec, deadline())), "snapshot");
    assert_eq!(exec.calls(), &vec!["request_drain", "snapshot"]);
    assert!(!exec.calls().contains(&"cancel_drain"));
}

#[test]
fn transfer_failure_after_snapshot_propagates() {
    let mut exec = PseudoExecutor::new();
    exec.fail_on("transfer", "connection reset");
    assert_eq!(failed_op(drive(intent(), &mut exec, deadline())), "transfer");
    assert_eq!(exec.calls(), &vec!["request_drain", "snapshot", "transfer"]);
}

#[test]
fn cleanup_failure_propagates() {
    let mut exec = PseudoExecutor::new();
    exec.fail_on("cleanup", "stale dir");
    assert_eq!(failed_op(drive(intent(), &mut exec, deadline())), "cleanup");
    assert_eq!(
        exec.calls(),
        &vec!["request_drain", "snapshot", "transfer", "restore", "cutover", "cleanup"]
    );
}

fn migration() -> Migration<state::Intent> {
    Migration::intent(VmId::new(), HostId::new("host-a"), HostId::new("host-b"))
}

#[test]
fn quiescent_drain_runs_the_full_migration_in_order() {
    let mut exec = PseudoExecutor::new();
    let outcome = drive(migration(), &mut exec, deadline());
    assert_eq!(outcome, Ok(MigrationOutcome::Completed));
    assert_eq!(
        exec.calls(),
        &vec!["request_drain", "snapshot", "transfer", "restore", "cutover", "cleanup"]
    );
}

#[test]
fn busy_drain_aborts_before_snapshotting() {
    let mut exec = PseudoExecutor::with_drain(DrainOutcome::Busy {
        in_flight: Some(TurnId::from_u64(3)),
    });
    let outcome = drive(migration(), &mut exec, deadline());
    assert_eq!(outcome, Ok(MigrationOutcome::Aborted(AbortReason::NotQuiescent)));
    assert_eq!(exec.calls(), &vec!["request_drain", "cancel_drain"]);
}

#[test]
fn drain_failure_propagates_and_stops_the_migration() {
    let mut exec = PseudoExecutor::new();
    exec.fail_on("request_drain", "control plane unreachable");
    let err = drive(migration(), &mut exec, deadline());
    assert!(matches!(
        err,
        Err(MigrationError::Executor(ExecError { op: "request_drain", .. }))
    ));
    assert_eq!(exec.calls(), &vec!["request_drain"]);
}

#[test]
fn transfer_failure_after_snapshot_propagates_without_rollback() {
    let mut exec = PseudoExecutor::new();
    exec.fail_on("transfer", "peer reset");
    let err = drive(migration(), &mut exec, deadline());
    assert!(matches!(
        err,
        Err(MigrationError::Executor(ExecError { op: "transfer", .. }))
    ));
    assert_eq!(exec.calls(), &vec!["request_drain", "snapshot", "transfer"]);
}

// The control loop.

fn endpoint(name: &str) -> HostEndpoint {
    HostEndpoint {
        control_url: format!("http://{name}:8080"),
        data_listen: "0.0.0.0:9000".to_owned(),
        data_addr: format!("{name}:9000"),
    }
}

fn fleet() -> Fleet {
    let mut f = Fleet::new();
    f.add(host("a"), endpoint("a"));
    f.add(host("b"), endpoint("b"));
    f
}

#[test]
fn drives_recv_then_send_for_the_chosen_move() {
    let v = VmId::new();
    let mut placement = Placement::new();
    placement.assign(host("a"), v);
    placement.assign(host("b"), VmId::new());
    let mut api = PseudoDaemon::new();

    let mv = rebalance_once(
        &placement,
        &pressures(&[("a", 0.95), ("b", 0.10)]),
        &idle(&[(v, Duration::from_secs(30))]),
        pressure(0.80),
        &compat(),
        &fleet(),
        &mut api,
    );
    let Ok(Some(mv)) = mv else {
        panic!("a move");
    };

    assert_eq!(mv.from, host("a"));
    assert_eq!(mv.to, host("b"));
    assert_eq!(
        api.calls(),
        &vec![
            "recv http://b:8080 0.0.0.0:9000".to_owned(),
            format!("send http://a:8080 {} b:9000", v.to_text()),
        ]
    );
}

#[test]
fn does_nothing_when_no_host_is_hot() {
    let v = VmId::new();
    let mut placement = Placement::new();
    placement.assign(host("a"), v);
    let mut api = PseudoDaemon::new();

    let result = rebalance_once(
        &placement,
        &pressures(&[("a", 0.40), ("b", 0.10)]),
        &idle(&[(v, Duration::from_secs(30))]),
        pressure(0.80),
        &compat(),
        &fleet(),
        &mut api,
    );

    assert_eq!(result, Ok(None));
    assert!(api.calls().is_empty());
}

#[test]
fn recv_failure_aborts_before_send() {
    let v = VmId::new();
    let mut placement = Placement::new();
    placement.assign(host("a"), v);
    placement.assign(host("b"), VmId::new());
    let mut api = PseudoDaemon::new();
    api.fail_on("recv");

    let err = rebalance_once(
        &placement,
        &pressures(&[("a", 0.95), ("b", 0.10)]),
        &idle(&[(v, Duration::from_secs(30))]),
        pressure(0.80),
        &compat(),
        &fleet(),
        &mut api,
    );

    assert!(matches!(err, Err(CtlError::Daemon { op: "recv", .. })));
    assert_eq!(api.calls(), &vec!["recv http://b:8080 0.0.0.0:9000".to_owned()]);
}

#[test]
fn a_host_outside_the_fleet_is_an_error() {
    let v = VmId::new();
    let mut placement = Placement::new();
    placement.assign(host("a"), v);
    let mut api = PseudoDaemon::new();
    let err = rebalance_once(
        &placement,
        &pressures(&[("a", 0.95), ("b", 0.10)]),
        &idle(&[(v, Duration::from_secs(30))]),
        pressure(0.80),
        &compat(),
        &Fleet::new(),
        &mut api,
    );
    assert!(matches!(err, Err(CtlError::UnknownHost(_))));
    assert!(api.calls().is_empty());
}

#[test]
fn nothing_is_asked_on_missing_evidence() {
    let mut placement = Placement::new();
    placement.assign(host("a"), VmId::new());
    let mut api = PseudoDaemon::new();
    let r = rebalance_once(
        &placement,
        &pressures(&[("a", 0.95), ("b", 0.10)]),
        &idle(&[]),
        pressure(0.80),
        &compat(),
        &fleet(),
        &mut api,
    );
    assert_eq!(r, Ok(None));
    assert!(api.calls().is_empty());
}

#[test]
fn a_request_goes_where_its_url_says() {
    assert_eq!(
        dial_target("http://b:8080/migrate/recv?listen=0.0.0.0:9000"),
        Ok(DialTarget {
            host: "b".to_owned(),
            port: 8080,
            path: "/migrate/recv?listen=0.0.0.0:9000".to_owned(),
        })
    );
    assert_eq!(
        dial_target("http://10.0.0.1"),
        Ok(DialTarget { host: "10.0.0.1".to_owned(), port: 80, path: "/".to_owned() })
    );
    assert_eq!(
        dial_target("b"),
        Ok(DialTarget { host: "b".to_owned(), port: 80, path: "/".to_owned() })
    );
    assert_eq!(dial_target("/migrate"), Err("no host in /migrate".to_owned()));
    assert_eq!(dial_target(""), Err("bad url : empty string".to_owned()));
    let parts = UriParts { host: Some("h".to_owned()), port: None, path: None };
    assert_eq!(
        target_of("u", Ok(parts)),
        Ok(DialTarget { host: "h".to_owned(), port: 80, path: "/".to_owned() })
    );
    assert_eq!(target_of("u", Err("why".to_owned())), Err("bad url u: why".to_owned()));
}

#[test]
fn a_fleet_is_assembled_from_its_hosts() {
    let scene = assemble(vec![HostConfig {
        id: "a".to_owned(),
        control_url: "http://a:8080".to_owned(),
        data_listen: "0.0.0.0:9000".to_owned(),
        data_addr: "a:9000".to_owned(),
        pressure: 0.95f64.to_bits(),
        vms: 2,
    }]);
    let vms = scene.placement.vms_on(&host("a"));
    assert_eq!(vms.len(), 2);
    assert_ne!(vms[0], vms[1]);
    assert_eq!(scene.idle.entries().len(), 2);
    for v in &vms {
        assert_eq!((v.as_uuid() >> 76) & 0xf, 4);
        assert_eq!(scene.idle.get(v), Some(&Duration::from_secs(IDLE_SECS)));
    }
    assert_eq!(scene.pressure.get(&host("a")), Some(&pressure(0.95)));
}

#[test]
fn daemons_are_asked_by_url() {
    assert_eq!(
        recv_url("http://b:8080", "0.0.0.0:9000"),
        "http://b:8080/migrate/recv?listen=0.0.0.0:9000"
    );
    assert_eq!(send_url("http://a:8080", "b:9000"), "http://a:8080/migrate/send?to=b:9000");
    assert!(accepted(204));
    assert!(!accepted(300));
    assert!(!accepted(199));
}
