//! Identifiers, compatibility classes, the migration's states, and the ground they stand on.

use sleepwalk::binary64;
use sleepwalk::bytes::{append_bytes, bytes_of, number_of};
use sleepwalk::cli::command::{dispatch, Command, HostAction, VmAction};
use sleepwalk::cli::config::{Config, ConfigError, ConfigFile, ConfigKeys};
use sleepwalk::ordered::OrderedMap;
use sleepwalk::paths::join;
use sleepwalk::proto::compat::CompatClass;
use sleepwalk::proto::fsm::{Migration, MigrationState};
use sleepwalk::proto::ids::{HostId, Timestamp, TurnId, VmId};
use sleepwalk::proto::state;
use sleepwalk::proto::wire::millis;
use sleepwalk::text::{
    contains_text, decimal_of, is_whitespace, padded_of, parse_number, sorts_before, split_on,
    trimmed, words_of,
};
use sleepwalk::time::Duration;

fn class(vendor: &str, model: &str, tsc_khz: u32, kernel: &str) -> CompatClass {
    CompatClass {
        vendor: vendor.to_owned(),
        model: model.to_owned(),
        tsc_khz,
        kernel: kernel.to_owned(),
    }
}

#[test]
fn identical_hosts_are_compatible() {
    let a = class("GenuineIntel", "Xeon", 1_995_000, "6.1.155");
    assert!(a.compatible_with(&a.clone()));
}

#[test]
fn different_tsc_frequency_is_incompatible() {
    let a = class("GenuineIntel", "Xeon", 1_995_000, "6.1.155");
    let b = class("GenuineIntel", "Xeon", 2_100_000, "6.1.155");
    assert!(!a.compatible_with(&b));
}

#[test]
fn tsc_within_250ppm_is_compatible() {
    let a = class("GenuineIntel", "Xeon", 2_000_000, "6.1.155");
    let b = class("GenuineIntel", "Xeon", 2_000_400, "6.1.155");
    assert!(a.compatible_with(&b));
    let c = class("GenuineIntel", "Xeon", 2_000_800, "6.1.155");
    assert!(!a.compatible_with(&c));
}

#[test]
fn vendor_mismatch_is_incompatible() {
    let intel = class("GenuineIntel", "Xeon", 2_000_000, "6.1.155");
    let amd = class("AuthenticAMD", "Xeon", 2_000_000, "6.1.155");
    assert!(!intel.compatible_with(&amd));
}

#[test]
fn model_mismatch_is_incompatible() {
    let a = class("GenuineIntel", "Ice Lake", 2_000_000, "6.1.155");
    let b = class("GenuineIntel", "Cascade Lake", 2_000_000, "6.1.155");
    assert!(!a.compatible_with(&b));
}

#[test]
fn kernel_patch_bumps_stay_in_class_but_minor_bumps_split() {
    let a = class("GenuineIntel", "Xeon", 2_000_000, "6.1.155");
    let patch = class("GenuineIntel", "Xeon", 2_000_000, "6.1.200");
    assert!(a.compatible_with(&patch));
    let minor = class("GenuineIntel", "Xeon", 2_000_000, "6.2.0");
    assert!(!a.compatible_with(&minor));
}

#[test]
fn label_is_compact_and_human_readable() {
    let a = class("GenuineIntel", "DO-Premium-Intel", 1_995_309, "6.1.155");
    assert_eq!(a.label(), "GenuineIntel/DO-Premium-Intel/1995MHz/6.1");
}

#[test]
fn compatibility_goes_both_ways() {
    let a = class("V", "M", 1_000_000, "6.1");
    for tsc in [999_000, 999_750, 999_751, 1_000_000, 1_000_250, 1_000_251, 0, u32::MAX] {
        let b = class("V", "M", tsc, "6.1.9");
        assert_eq!(a.compatible_with(&b), b.compatible_with(&a), "{tsc}");
    }
}

// The migration's states.

fn fixture() -> Migration<state::Intent> {
    Migration::intent(VmId::from_uuid(0), HostId::new("host-a"), HostId::new("host-b"))
}

#[test]
fn forward_path_reaches_cleanup() {
    let m = fixture();
    let vm = m.vm();
    assert_eq!(m.state(), MigrationState::Intent);

    let m = m.drain();
    assert_eq!(m.state(), MigrationState::Draining);
    let m = m.quiescent();
    assert_eq!(m.state(), MigrationState::Quiescent);
    let m = m.snapshot();
    assert_eq!(m.state(), MigrationState::Snapshotting);
    let m = m.transfer();
    assert_eq!(m.state(), MigrationState::Transferring);
    let m = m.restore();
    assert_eq!(m.state(), MigrationState::Restoring);
    let m = m.cutover();
    assert_eq!(m.state(), MigrationState::CutOver);
    let m = m.cleanup();
    assert_eq!(m.state(), MigrationState::Cleanup);

    assert_eq!(m.vm(), vm);
    assert_eq!(m.from().as_str(), "host-a");
    assert_eq!(m.to().as_str(), "host-b");
}

#[test]
fn abort_before_snapshot_returns_to_stable() {
    assert_eq!(fixture().abort().state(), MigrationState::Aborted);
    assert_eq!(fixture().drain().abort().state(), MigrationState::Aborted);
    assert_eq!(fixture().drain().quiescent().abort().state(), MigrationState::Aborted);
}

// Identifiers.

#[test]
fn a_vm_id_is_a_random_uuid() {
    let (a, b) = (VmId::new(), VmId::new());
    assert_ne!(a, b);
    let uuid = uuid::Uuid::from_u128(a.as_uuid());
    assert_eq!(uuid.get_version_num(), 4);
    assert_eq!(a.to_text(), uuid.to_string());
}

#[test]
fn a_vm_id_reads_as_its_uuid() {
    let id = VmId::from_uuid(0x0123_4567_89ab_cdef_0123_4567_89ab_cdef);
    assert_eq!(id.to_text(), "01234567-89ab-cdef-0123-456789abcdef");
    assert_eq!(VmId::from_uuid(0).to_text(), "00000000-0000-0000-0000-000000000000");
}

#[test]
fn turn_ids_count_up_and_stop_at_the_end() {
    assert_eq!(TurnId::first().get(), 0);
    assert_eq!(TurnId::first().next().get(), 1);
    assert_eq!(TurnId::from_u64(u64::MAX).next().get(), u64::MAX);
}

#[test]
fn timestamps_are_nanoseconds_since_the_epoch() {
    let ts = Timestamp::from_nanos(1_500);
    assert_eq!(ts.as_nanos(), 1_500);
    assert_eq!(ts.since_epoch(), Duration::from_nanos(1_500));
}

#[test]
fn maps_are_in_the_order_of_their_keys() {
    let names = ["b", "a", "zz", "", "Z", "é", "z", "a\u{0}"];
    let mut map = OrderedMap::new();
    for (i, name) in names.iter().enumerate() {
        map.insert(HostId::new(name), i);
    }
    let mut sorted: Vec<HostId> = names.iter().map(|n| HostId::new(n)).collect();
    sorted.sort();
    let keys: Vec<&HostId> = map.entries().iter().map(|(k, _)| k).collect();
    assert_eq!(keys, sorted.iter().collect::<Vec<&HostId>>());
    assert_eq!(map.len(), names.len());
    map.insert(HostId::new("a"), 99);
    assert_eq!(map.get(&HostId::new("a")), Some(&99));
    assert_eq!(map.remove(&HostId::new("a")), Some(99));
    assert_eq!(map.get(&HostId::new("a")), None);
    assert_eq!(map.remove(&HostId::new("a")), None);
}

// The wire.

#[test]
fn a_deadline_travels_as_whole_milliseconds() {
    assert_eq!(millis::serialize(&Duration::from_nanos(1_999_999)), 1);
    assert_eq!(millis::serialize(&Duration::from_secs(u64::MAX)), u64::MAX);
    assert_eq!(millis::deserialize(250), Duration::from_millis(250));
    assert_eq!(millis::serialize(&millis::deserialize(u64::MAX)), u64::MAX);
}

#[test]
fn numbers_are_big_endian_bytes() {
    assert_eq!(bytes_of(0x0102_0304, 4), vec![1, 2, 3, 4]);
    assert_eq!(number_of(&[1, 2, 3, 4]), 0x0102_0304);
    let mut out = vec![9];
    append_bytes(&mut out, &[1, 2]);
    assert_eq!(out, vec![9, 1, 2]);
}

// Text.

#[test]
fn white_space_is_what_unicode_says() {
    for n in 0..=0x10ffffu32 {
        if let Some(c) = char::from_u32(n) {
            assert_eq!(is_whitespace(c), c.is_whitespace(), "{n:x}");
        }
    }
}

#[test]
fn text_is_cut_as_the_standard_library_cuts_it() {
    for s in ["", " ", "a", " a b  c ", "a:b::c", ":", "\u{2003}x\u{a0}", "a\n\tb"] {
        assert_eq!(trimmed(s), s.trim());
        assert_eq!(split_on(s, ':'), s.split(':').collect::<Vec<&str>>());
        assert_eq!(words_of(s), s.split_whitespace().collect::<Vec<&str>>());
    }
    assert!(contains_text("hello", "ell"));
    assert!(contains_text("hello", ""));
    assert!(!contains_text("hello", "lle"));
}

#[test]
fn text_sorts_as_the_standard_library_sorts_it() {
    let words = ["", "a", "b", "ab", "A", "\u{7ff}", "\u{ffff}", "\u{10000}", "é"];
    for a in words {
        for b in words {
            assert_eq!(sorts_before(a, b), a < b, "{a:?} {b:?}");
        }
    }
}

#[test]
fn numbers_are_written_and_read() {
    for n in [0u64, 9, 10, 255, 1_000_000, u64::MAX] {
        assert_eq!(decimal_of(n), n.to_string());
        assert_eq!(parse_number(&n.to_string(), 10, u64::MAX), Some(n));
    }
    assert_eq!(padded_of(255, 16, 4), "00ff");
    assert_eq!(padded_of(0x1ff, 16, 2), "ff");
    for s in ["+5", "-5", "", "+", "007", "18446744073709551616", "1 ", "０"] {
        assert_eq!(parse_number(s, 10, u64::MAX), s.parse::<u64>().ok(), "{s}");
        assert_eq!(
            parse_number(s, 16, 255),
            u8::from_str_radix(s, 16).ok().map(u64::from),
            "{s}"
        );
    }
}

#[test]
fn paths_are_joined_by_one_slash() {
    assert_eq!(join("/a", "b"), "/a/b");
    assert_eq!(join("/a/", "b"), "/a/b");
    assert_eq!(join("", "b"), "b");
}

#[test]
fn bit_patterns_compare_as_their_numbers() {
    let numbers = [
        0.0,
        -0.0,
        1.0,
        -1.0,
        0.5,
        f64::MAX,
        f64::MIN_POSITIVE,
        f64::INFINITY,
        f64::NEG_INFINITY,
        f64::NAN,
        5e-324,
    ];
    for a in numbers {
        assert_eq!(binary64::finite(a.to_bits()), a.is_finite(), "{a}");
        for b in numbers {
            assert_eq!(binary64::less_than(a.to_bits(), b.to_bits()), a < b, "{a} {b}");
            assert_eq!(binary64::less_or_equal(a.to_bits(), b.to_bits()), a <= b, "{a} {b}");
            assert_eq!(
                binary64::totally_less(a.to_bits(), b.to_bits()),
                a.total_cmp(&b).is_lt(),
                "{a} {b}"
            );
        }
    }
}

// The front door.

fn no_keys() -> ConfigKeys {
    ConfigKeys {
        state_dir: None,
        cpu_pct: None,
        samples: None,
        sample_interval_ms: None,
        drain_deadline_ms: None,
    }
}

#[test]
fn keys_that_are_not_set_have_their_defaults() {
    let c = Config::load("test.toml", ConfigFile::Keys(no_keys()));
    assert_eq!(c, Ok(Config::default()));
    assert_eq!(f64::from_bits(Config::default().quiescence.cpu_pct), 5.0);
}

#[test]
fn keys_that_are_set_leave_the_other_defaults() {
    let keys = ConfigKeys {
        state_dir: Some("/srv/sw".to_owned()),
        cpu_pct: Some(2.5f64.to_bits()),
        ..no_keys()
    };
    let c = Config::from_keys(keys);
    assert_eq!(c.state_dir, "/srv/sw");
    assert_eq!(f64::from_bits(c.quiescence.cpu_pct), 2.5);
    assert_eq!(c.quiescence.samples, 5);
    assert_eq!(c.quiescence.sample_interval_ms, 200);
    assert_eq!(c.migration.drain_deadline_ms, 5000);
}

#[test]
fn a_malformed_file_is_a_parse_error() {
    let c = Config::load("test.toml", ConfigFile::Malformed("unknown field".to_owned()));
    assert_eq!(
        c,
        Err(ConfigError::Parse {
            path: "test.toml".to_owned(),
            source: "unknown field".to_owned(),
        })
    );
}

#[test]
fn configurations_are_compared_by_number() {
    let with = |pct: f64| {
        Config::from_keys(ConfigKeys { cpu_pct: Some(pct.to_bits()), ..no_keys() })
    };
    assert_eq!(with(0.0), with(-0.0));
    assert_ne!(with(f64::NAN), with(f64::NAN));
    assert_ne!(with(1.0).quiescence, with(2.0).quiescence);
    assert_eq!(with(1.0).quiescence, with(1.0).quiescence);
}

#[test]
fn missing_file_loads_defaults() {
    let c = Config::load("/no/such/sleepwalk.toml", ConfigFile::Missing);
    assert_eq!(c, Ok(Config::default()));
}

#[test]
fn an_unreadable_file_is_an_error() {
    let c = Config::load("x.toml", ConfigFile::Unreadable("denied".to_owned()));
    assert_eq!(
        c,
        Err(ConfigError::Read { path: "x.toml".to_owned(), source: "denied".to_owned() })
    );
}

#[test]
fn no_command_pretends_to_act() {
    let expected = [
        (Command::Host { action: HostAction::Run }, "host run"),
        (Command::Vm { action: VmAction::Create { profile: "p".to_owned() } }, "vm create"),
        (Command::Vm { action: VmAction::List }, "vm list"),
        (Command::Vm { action: VmAction::Status { vm: "v".to_owned() } }, "vm status"),
        (Command::Migrate { vm: "v".to_owned(), to: "h".to_owned() }, "migrate"),
        (Command::Rebalance { watch: true }, "rebalance"),
        (Command::Quiesce { vm: "v".to_owned() }, "quiesce"),
    ];
    for (command, name) in expected {
        assert_eq!(
            dispatch(&command),
            Err(format!("`{name}` needs the host runtime, which is not wired yet — see ROADMAP"))
        );
    }
}
