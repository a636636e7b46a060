//! Schedules, latencies, reports and the race between turns and drains.

use hdrhistogram::Histogram;

use sleepwalk::harness::chaos::{race, simulate, Turn};
use sleepwalk::harness::loadgen::{run_load, FixedLatency};
use sleepwalk::harness::recorder::{LatencyRecorder, LatencyStats, Quantiles, RecordError};
use sleepwalk::harness::report::{
    min_median_max, render_markdown, IdleGapBucket, LatencySlice, Methodology, MigrationRecord,
    RunReport,
};
use sleepwalk::harness::schedule::{Arrivals, Schedule, SplitMix64};
use sleepwalk::time::Duration;

// Schedules.

fn seconds(t: f64) -> Duration {
    Duration::from_nanos(std::time::Duration::from_secs_f64(t).as_nanos() as u64)
}

fn generate(rate: f64, duration: Duration, arrivals: Arrivals) -> Schedule {
    let horizon = duration.as_nanos() as f64 / 1e9;
    let mut times = Vec::new();
    if Schedule::rate_sends(rate.to_bits()) {
        let mut rng = match arrivals {
            Arrivals::Fixed => SplitMix64::new(0),
            Arrivals::Poisson { seed } => SplitMix64::new(seed),
        };
        let interval = 1.0 / rate;
        let mut i = 0u64;
        let mut t = 0.0;
        loop {
            match arrivals {
                Arrivals::Fixed => t = i as f64 * interval,
                Arrivals::Poisson { .. } => {
                    let u = rng.next_fraction() as f64 / (1u64 << 53) as f64;
                    t += -(1.0 - u).ln() / rate;
                }
            }
            if t >= horizon {
                break;
            }
            times.push(seconds(t));
            i += 1;
        }
    }
    Schedule::of_arrivals(rate.to_bits(), times, duration)
}

#[test]
fn fixed_rate_spaces_requests_evenly_within_the_horizon() {
    let s = generate(5.0, Duration::from_secs(1), Arrivals::Fixed);
    assert_eq!(s.len(), 5);
    assert_eq!(s.times()[0], Duration::zero());
    assert_eq!(s.times()[1], Duration::from_millis(200));
    assert!(s.times().iter().all(|t| *t < Duration::from_secs(1)));
}

#[test]
fn non_positive_rate_is_empty() {
    assert!(generate(0.0, Duration::from_secs(1), Arrivals::Fixed).is_empty());
    assert!(generate(-3.0, Duration::from_secs(1), Arrivals::Fixed).is_empty());
    assert!(generate(f64::NAN, Duration::from_secs(1), Arrivals::Fixed).is_empty());
}

#[test]
fn poisson_is_deterministic_for_a_seed() {
    let a = generate(10.0, Duration::from_secs(10), Arrivals::Poisson { seed: 42 });
    let b = generate(10.0, Duration::from_secs(10), Arrivals::Poisson { seed: 42 });
    assert_eq!(a, b);
    let c = generate(10.0, Duration::from_secs(10), Arrivals::Poisson { seed: 7 });
    assert_ne!(a, c);
}

#[test]
fn poisson_times_are_monotonic_and_roughly_match_the_rate() {
    let s = generate(10.0, Duration::from_secs(100), Arrivals::Poisson { seed: 1 });
    assert!(s.len() > 800 && s.len() < 1200, "got {}", s.len());
    assert!(s.times().windows(2).all(|w| w[0] <= w[1]), "not monotonic");
    assert!(s.times().iter().all(|t| *t < Duration::from_secs(100)));
}

#[test]
fn a_rate_that_sends_nothing_drops_all_arrivals() {
    for rate in [0.0, -1.0, f64::NAN, f64::INFINITY, -0.0] {
        let s = Schedule::of_arrivals(
            rate.to_bits(),
            vec![Duration::zero()],
            Duration::from_secs(1),
        );
        assert!(s.is_empty(), "{rate}");
    }
}

#[test]
fn the_schedule_ends_at_the_first_arrival_past_the_horizon() {
    let s = Schedule::of_arrivals(
        1.0f64.to_bits(),
        vec![Duration::from_secs(1), Duration::from_secs(2), Duration::from_secs(1)],
        Duration::from_secs(2),
    );
    assert_eq!(s.times(), &vec![Duration::from_secs(1)]);
}

#[test]
fn the_generator_yields_its_known_numbers() {
    let mut rng = SplitMix64::new(1234567);
    assert_eq!(rng.next_u64(), 6457827717110365317);
    assert_eq!(rng.next_u64(), 3203168211198807973);
    let mut again = SplitMix64::new(1234567);
    assert_eq!(again.next_fraction(), 6457827717110365317 >> 11);
}

// Latencies.

fn quantiles(hist: &Histogram<u64>) -> Quantiles {
    Quantiles {
        p50: hist.value_at_quantile(0.50),
        p90: hist.value_at_quantile(0.90),
        p99: hist.value_at_quantile(0.99),
        p99_9: hist.value_at_quantile(0.999),
    }
}

fn histogram(micros: &[u64]) -> Histogram<u64> {
    let mut hist = match Histogram::new(3) {
        Ok(hist) => hist,
        Err(e) => panic!("{e:?}"),
    };
    for v in micros {
        assert!(hist.record(*v).is_ok());
    }
    hist
}

#[test]
fn percentiles_track_the_recorded_distribution() {
    let mut r = LatencyRecorder::new();
    let mut micros = Vec::new();
    for ms in 1..=100u64 {
        assert!(r.record_latency(Duration::from_millis(ms)).is_ok());
        micros.push(ms * 1000);
    }
    let s = r.summary(quantiles(&histogram(&micros)));
    assert_eq!(s.count, 100);
    assert!(s.p50 >= Duration::from_millis(49) && s.p50 <= Duration::from_millis(51));
    assert!(s.max >= Duration::from_millis(99));
    assert!(s.p99 >= s.p90 && s.p90 >= s.p50);
}

#[test]
fn latency_is_measured_from_intended_not_actual_send() {
    let mut r = LatencyRecorder::new();
    assert!(r.record(Duration::zero(), Duration::from_millis(200)).is_ok());
    assert!(r.record(Duration::from_millis(100), Duration::from_millis(200)).is_ok());
    let s = r.summary(quantiles(&histogram(&[200_000, 100_000])));
    assert_eq!(s.count, 2);
    assert!(s.max >= Duration::from_millis(199));
}

#[test]
fn completion_before_intended_is_rejected() {
    let mut r = LatencyRecorder::new();
    let err = r.record(Duration::from_millis(100), Duration::from_millis(50));
    assert!(matches!(err, Err(RecordError::CompletedBeforeIntended { .. })));
    assert_eq!(r.count(), 0);
}

#[test]
fn the_longest_latency_is_kept_to_three_figures() {
    let mut r = LatencyRecorder::default();
    let none = Quantiles { p50: 1, p90: 2, p99: 3, p99_9: 4 };
    assert_eq!(r.summary(none).max, Duration::zero());
    for micros in [7u64, 123_456_789, 42] {
        assert!(r.record_latency(Duration::from_micros(micros)).is_ok());
    }
    let s = r.summary(none);
    assert_eq!(s.count, 3);
    assert_eq!(s.p50, Duration::from_micros(1));
    assert_eq!(s.p99_9, Duration::from_micros(4));
    assert!(s.max >= Duration::from_micros(123_456_789));
    assert!(s.max <= Duration::from_micros(123_456_789 + 123_457));
}

#[test]
fn even_the_longest_latency_is_recorded() {
    let mut r = LatencyRecorder::new();
    assert!(r.record_latency(Duration::from_secs(u64::MAX)).is_ok());
    assert_eq!(r.count(), 1);
}

// The load.

#[test]
fn measures_intended_time_latency() {
    let schedule = generate(5.0, Duration::from_secs(2), Arrivals::Fixed);
    assert!(schedule.len() >= 5);
    let mut driver = FixedLatency::new(Duration::from_millis(200));
    let recorder = run_load(&schedule, &mut driver);
    let seen: Vec<u64> = schedule.times().iter().map(|_| 200_000).collect();
    let stats = recorder.summary(quantiles(&histogram(&seen)));

    assert_eq!(stats.count, schedule.len() as u64);
    assert!(
        stats.p50 >= Duration::from_millis(200) && stats.p50 < Duration::from_millis(205),
        "p50 {:?}",
        stats.p50
    );
    assert!(
        stats.p99 >= Duration::from_millis(200) && stats.p99 < Duration::from_millis(210),
        "p99 {:?}",
        stats.p99
    );
    assert!(stats.max >= Duration::from_millis(200) && stats.max < Duration::from_millis(201));
}

#[test]
fn a_long_stall_is_not_hidden() {
    let schedule = generate(1.0, Duration::from_millis(500), Arrivals::Fixed);
    let mut driver = FixedLatency::new(Duration::from_secs(1));
    let recorder = run_load(&schedule, &mut driver);
    let stats = recorder.summary(quantiles(&histogram(&[1_000_000])));
    assert_eq!(stats.count, 1);
    assert!(stats.max >= Duration::from_secs(1), "stall latency: {:?}", stats.max);
}

#[test]
fn empty_schedule_records_nothing() {
    let schedule = generate(0.0, Duration::from_secs(1), Arrivals::Fixed);
    let mut driver = FixedLatency::new(Duration::zero());
    assert_eq!(run_load(&schedule, &mut driver).count(), 0);
}

// The race.

#[test]
fn race_rule_holds_across_many_interleavings() {
    let mut busy = 0u32;
    let mut idle = 0u32;
    for seed in 0..2_000u64 {
        let r = match simulate(seed) {
            Ok(r) => r,
            Err(e) => panic!("simulation runs cleanly: {e:?}"),
        };
        assert!(r.race_rule_holds(), "race rule violated at seed {seed}: {r:?}");
        if r.drain_hit_busy() {
            busy += 1;
        } else {
            idle += 1;
        }
    }
    assert!(busy > 0, "corpus never drained a busy turn");
    assert!(idle > 0, "corpus never drained during an idle gap");
}

#[test]
fn simulation_is_deterministic_for_a_seed() {
    let a = simulate(123);
    let b = simulate(123);
    assert!(a.is_ok());
    assert_eq!(a, b);
}

#[test]
fn a_drain_in_a_gap_is_quiet() {
    let turns = vec![Turn { start: 10, end: 20 }, Turn { start: 30, end: 40 }];
    let Ok(gap) = race(&turns, 25) else {
        panic!("runs");
    };
    assert!(!gap.drain_hit_busy());
    let Ok(busy) = race(&turns, 15) else {
        panic!("runs");
    };
    assert!(busy.drain_hit_busy());
    assert!(gap.race_rule_holds() && busy.race_rule_holds());
}

// Reports.

fn sample() -> RunReport {
    RunReport {
        methodology: Methodology {
            machine: "test-host (8 vCPU, 16 GB)".to_owned(),
            versions_hash: "abc123".to_owned(),
            runs: 10,
            warmup_runs: 2,
        },
        migrations: vec![
            MigrationRecord {
                vm: "vm-1".to_owned(),
                from: "host-a".to_owned(),
                to: "host-b".to_owned(),
                freeze_window_us: 8_000,
                e2e_us: 1_200_000,
                bytes_moved: 536_870_912,
                faults_served: 4_096,
            },
            MigrationRecord {
                vm: "vm-2".to_owned(),
                from: "host-a".to_owned(),
                to: "host-b".to_owned(),
                freeze_window_us: 12_000,
                e2e_us: 1_500_000,
                bytes_moved: 1_073_741_824,
                faults_served: 8_192,
            },
        ],
        latency_clean: LatencySlice {
            label: "clean".to_owned(),
            count: 1000,
            p50_us: 40_000,
            p99_us: 90_000,
        },
        latency_overlapping: LatencySlice {
            label: "migration-overlapping".to_owned(),
            count: 50,
            p50_us: 42_000,
            p99_us: 95_000,
        },
        idle_gap_buckets: vec![
            IdleGapBucket { upper_ms: 100, count: 12 },
            IdleGapBucket { upper_ms: 1000, count: 340 },
        ],
    }
}

#[test]
fn markdown_renders_all_sections_with_numbers() {
    let md = render_markdown(&sample());
    assert!(md.contains("## Methodology"));
    assert!(md.contains("## Migrations"));
    assert!(md.contains("## Turn latency: clean vs. migration-overlapping"));
    assert!(md.contains("## Idle-gap distribution"));
    assert!(md.contains("`abc123`"));
    assert!(md.contains("10 measured (2 warm-up discarded)"));
    assert!(md.contains("8.000"), "freeze window vm-1:\n{md}");
    assert!(md.contains("12.000"), "freeze window vm-2:\n{md}");
    assert!(md.contains("median 8.000 ms"), "freeze summary:\n{md}");
    assert!(md.contains("5.000 ms"), "p99 delta:\n{md}");
}

#[test]
fn empty_report_renders_placeholders() {
    let mut r = sample();
    r.migrations.clear();
    r.idle_gap_buckets.clear();
    let md = render_markdown(&r);
    assert!(md.contains("_No migrations recorded._"));
    assert!(md.contains("_No idle gaps recorded._"));
}

#[test]
fn min_median_max_handles_even_and_empty() {
    assert_eq!(min_median_max(&vec![]), (0, 0, 0));
    assert_eq!(min_median_max(&vec![5]), (5, 5, 5));
    assert_eq!(min_median_max(&vec![10, 20, 30, 40]), (10, 20, 40));
}

#[test]
fn min_median_max_sorts_first() {
    assert_eq!(min_median_max(&vec![9, 1, 5, 3, 7]), (1, 5, 9));
    assert_eq!(min_median_max(&vec![4, 4, 2, 2]), (2, 2, 4));
}

#[test]
fn latency_slice_from_stats() {
    let stats = LatencyStats {
        count: 5,
        p50: Duration::from_millis(40),
        p90: Duration::from_millis(80),
        p99: Duration::from_millis(95),
        p99_9: Duration::from_millis(99),
        max: Duration::from_millis(100),
    };
    let slice = LatencySlice::from_stats("clean", &stats);
    assert_eq!(slice.label, "clean");
    assert_eq!(slice.count, 5);
    assert_eq!(slice.p50_us, 40_000);
    assert_eq!(slice.p99_us, 95_000);
}

#[test]
fn the_whole_report_is_as_written() {
    let mut r = sample();
    r.migrations.truncate(1);
    r.latency_overlapping.p99_us = 89_999;
    r.idle_gap_buckets.truncate(1);
    let expected = format!(
        "{}{}{}{}{}{}{}{}{}{}{}{}{}{}{}{}",
        "# sleepwalk measurement report\n\n## Methodology\n\n",
        "- **Machine:** test-host (8 vCPU, 16 GB)\n- **Versions hash:** `abc123`\n",
        "- **Runs:** 10 measured (2 warm-up discarded)\n\n## Migrations\n\n",
        "| VM | From → To | Freeze (ms) | E2E (ms) | Bytes moved | Faults served |\n",
        "|----|-----------|------------:|---------:|------------:|--------------:|\n",
        "| vm-1 | host-a → host-b | 8.000 | 1200.000 | 536870912 | 4096 |\n",
        "\n**Freeze window** across 1 migration(s): min 8.000 ms · median 8.000 ms · ",
        "max 8.000 ms.\n\n## Turn latency: clean vs. migration-overlapping\n\n",
        "| Slice | Samples | p50 (ms) | p99 (ms) |\n",
        "|-------|--------:|---------:|---------:|\n",
        "| clean | 1000 | 40.000 | 90.000 |\n",
        "| migration-overlapping | 50 | 42.000 | 89.999 |\n",
        "\n**p99 delta** (overlapping − clean): -0.001 ms.\n\n",
        "## Idle-gap distribution\n\n",
        "| ≤ ms | Count |\n|-----:|------:|\n",
        "| 100 | 12 |\n",
    );
    assert_eq!(render_markdown(&r), expected);
}

#[test]
fn milliseconds_have_three_decimals() {
    for us in [0u64, 1, 10, 999, 1_000, 1_001, 123_456_789, 8_000_000_000_000_000] {
        let mut r = sample();
        r.latency_clean.p50_us = us;
        let row = format!("| clean | 1000 | {:.3} |", us as f64 / 1000.0);
        assert!(render_markdown(&r).contains(&row), "{row}");
    }
}
