//! The report of a measurement run.
//!
//! A run's numbers are kept in their base units, microseconds and bytes, and written out for people
//! as markdown. No number stands without the conditions that it was measured under.

use vstd::multiset::Multiset;
use vstd::prelude::*;

use crate::harness::recorder;
use crate::harness::recorder::{micros_of, LatencyStats};
use crate::text;
use crate::text::{decimal_of, padded_of};

verus! {

/// The conditions of a run.
#[derive(Clone, Debug, PartialEq, Eq)]
pub struct Methodology {
    /// The host, in words.
    pub machine: String,
    /// The hash of the pinned versions.
    pub versions_hash: String,
    /// How many runs were measured.
    pub runs: u32,
    /// How many runs were discarded before.
    pub warmup_runs: u32,
}

/// What one migration cost.
#[derive(Clone, Debug, PartialEq, Eq)]
pub struct MigrationRecord {
    /// The VM.
    pub vm: String,
    /// The source.
    pub from: String,
    /// The target.
    pub to: String,
    /// How long the VM stood still, in microseconds.
    pub freeze_window_us: u64,
    /// How long the migration took in all, in microseconds.
    pub e2e_us: u64,
    /// How many bytes were sent.
    pub bytes_moved: u64,
    /// How many page faults were served at the target.
    pub faults_served: u64,
}

/// The latencies of some of the turns.
#[derive(Clone, Debug, PartialEq, Eq)]
pub struct LatencySlice {
    /// Which turns.
    pub label: String,
    /// How many.
    pub count: u64,
    /// The median, in microseconds.
    pub p50_us: u64,
    /// The 99th percentile, in microseconds.
    pub p99_us: u64,
}

impl LatencySlice {
    /// The slice of a summary.
    pub fn from_stats(label: &str, stats: &LatencyStats) -> (slice: LatencySlice)
        ensures
            slice.label@ == label@,
            slice.count == stats.count,
            slice.p50_us == recorder::micros(stats.p50@),
            slice.p99_us == recorder::micros(stats.p99@),
    {
        LatencySlice {
            label: label.to_owned(),
            count: stats.count,
            p50_us: micros_of(&stats.p50),
            p99_us: micros_of(&stats.p99),
        }
    }
}

/// How many idle gaps are at most so long, and longer than the bucket before.
#[derive(Clone, Copy, Debug, PartialEq, Eq, Structural)]
pub struct IdleGapBucket {
    /// The longest gap of the bucket, in milliseconds.
    pub upper_ms: u64,
    /// How many gaps.
    pub count: u64,
}

/// The report of a run.
#[derive(Clone, Debug, PartialEq, Eq)]
pub struct RunReport {
    /// The conditions.
    pub methodology: Methodology,
    /// What each migration cost.
    pub migrations: Vec<MigrationRecord>,
    /// The latency of turns that no migration overlaps.
    pub latency_clean: LatencySlice,
    /// The latency of turns that a migration overlaps.
    pub latency_overlapping: LatencySlice,
    /// The idle gaps.
    pub idle_gap_buckets: Vec<IdleGapBucket>,
}

// ---------------------------------------------------------------------------
// Numbers
// ---------------------------------------------------------------------------

/// Microseconds as milliseconds with three decimals.
pub open spec fn millis(us: nat) -> Seq<char> {
    text::decimal(us / 1000) + "."@ + text::padded(us % 1000, 10, 3)
}

/// Microseconds as milliseconds with three decimals.
fn ms(us: u64) -> (out: String)
    ensures
        out@ == millis(us as nat),
{
    let mut out = decimal_of(us / 1000);
    out.append(".");
    out.append(&padded_of(us % 1000, 10, 3));
    out
}

/// A number of microseconds of either sign as milliseconds with three decimals.
pub open spec fn signed_millis(us: int) -> Seq<char> {
    if us < 0 {
        "-"@ + millis((-us) as nat)
    } else {
        millis(us as nat)
    }
}

/// How much more `later` is than `earlier`, each as far as it fits in 63 bits.
pub open spec fn delta(earlier: u64, later: u64) -> int {
    let top = 0x7fff_ffff_ffff_ffff_u64;
    (if later <= top {
        later as int
    } else {
        top as int
    }) - (if earlier <= top {
        earlier as int
    } else {
        top as int
    })
}

/// How much more `later` is than `earlier`, as milliseconds with three decimals.
fn ms_signed(earlier: u64, later: u64) -> (out: String)
    ensures
        out@ == signed_millis(delta(earlier, later)),
{
    let top: u64 = 0x7fff_ffff_ffff_ffff;
    let a: u64 = if earlier <= top {
        earlier
    } else {
        top
    };
    let b: u64 = if later <= top {
        later
    } else {
        top
    };
    if b < a {
        let mut out = "-".to_owned();
        out.append(&ms(a - b));
        out
    } else {
        ms(b - a)
    }
}

/// Whether numbers do not descend.
pub open spec fn is_sorted(s: Seq<u64>) -> bool {
    forall|i: int, j: int| 0 <= i <= j < s.len() ==> s[i] <= s[j]
}

/// Whether `sorted` are `values` from the least to the greatest.
pub open spec fn sorts(sorted: Seq<u64>, values: Seq<u64>) -> bool {
    is_sorted(sorted) && sorted.to_multiset() == values.to_multiset()
}

/// Whether `(min, med, max)` are the least of `values`, the middle one, which is the lower of the two
/// where there are two, and the greatest; all zero where there are none.
pub open spec fn summarizes(out: (u64, u64, u64), values: Seq<u64>) -> bool {
    if values.len() == 0 {
        out == (0u64, 0u64, 0u64)
    } else {
        exists|s: Seq<u64>| #[trigger]
            sorts(s, values) && out == (s[0], s[(s.len() - 1) / 2], s[s.len() - 1])
    }
}

/// The values from the least to the greatest.
fn sort(values: &Vec<u64>) -> (sorted: Vec<u64>)
    ensures
        sorts(sorted@, values@),
        sorted@.len() == values@.len(),
{
    let mut sorted: Vec<u64> = Vec::new();
    let mut i: usize = 0;
    proof {
        assert(values@.take(0) =~= Seq::<u64>::empty());
    }
    while i < values.len()
        invariant
            i <= values@.len(),
            sorted@.len() == i,
            is_sorted(sorted@),
            sorted@.to_multiset() == values@.take(i as int).to_multiset(),
        decreases values@.len() - i,
    {
        let v: u64 = values[i];
        let mut at: usize = sorted.len();
        while at > 0 && sorted[at - 1] > v
            invariant
                at <= sorted@.len(),
                is_sorted(sorted@),
                forall|j: int| at <= j < sorted@.len() ==> sorted@[j] > v,
            decreases at,
        {
            at = at - 1;
        }
        let ghost before = sorted@;
        sorted.insert(at, v);
        proof {
            vstd::seq_lib::to_multiset_insert(before, at as int, v);
            vstd::seq_lib::to_multiset_build(values@.take(i as int), v);
            assert(values@.take(i + 1) =~= values@.take(i as int).push(v));
        }
        i = i + 1;
    }
    proof {
        assert(values@.take(i as int) =~= values@);
    }
    sorted
}

/// The least, the middle one and the greatest.
pub fn min_median_max(values: &Vec<u64>) -> (out: (u64, u64, u64))
    ensures
        summarizes(out, values@),
{
    if values.len() == 0 {
        return (0, 0, 0);
    }
    let sorted = sort(values);
    let n: usize = sorted.len();
    let out: (u64, u64, u64) = (sorted[0], sorted[(n - 1) / 2], sorted[n - 1]);
    proof {
        assert(sorts(sorted@, values@));
    }
    out
}

/// The median lies between the least and the greatest, every value does too, and all three are
/// values.
pub proof fn law_median_lies_between(values: Seq<u64>, out: (u64, u64, u64), i: int)
    requires
        summarizes(out, values),
        0 <= i < values.len(),
    ensures
        out.0 <= out.1 <= out.2,
        out.0 <= values[i] <= out.2,
        values.contains(out.0),
        values.contains(out.1),
        values.contains(out.2),
{
    let s = choose|s: Seq<u64>| #[trigger]
        sorts(s, values) && out == (s[0], s[(s.len() - 1) / 2], s[s.len() - 1]);
    vstd::seq_lib::to_multiset_len(s);
    vstd::seq_lib::to_multiset_len(values);
    vstd::seq_lib::to_multiset_contains(s, values[i]);
    vstd::seq_lib::to_multiset_contains(values, values[i]);
    assert(values.contains(values[i]));
    let j = choose|j: int| 0 <= j < s.len() && s[j] == values[i];
    assert(s[0] <= s[j] <= s[s.len() - 1]);
    lemma_picked(s, values, 0);
    lemma_picked(s, values, (s.len() - 1) / 2);
    lemma_picked(s, values, s.len() - 1);
}

/// What stands in the sorted sequence is a value.
proof fn lemma_picked(sorted: Seq<u64>, values: Seq<u64>, i: int)
    requires
        sorts(sorted, values),
        0 <= i < sorted.len(),
    ensures
        values.contains(sorted[i]),
{
    vstd::seq_lib::to_multiset_contains(sorted, sorted[i]);
    vstd::seq_lib::to_multiset_contains(values, sorted[i]);
    assert(sorted.contains(sorted[i]));
}

/// What summarizes values is unique.
pub proof fn law_summary_is_unique(values: Seq<u64>, a: (u64, u64, u64), b: (u64, u64, u64))
    requires
        summarizes(a, values),
        summarizes(b, values),
    ensures
        a == b,
{
    if values.len() > 0 {
        let s = choose|s: Seq<u64>| #[trigger]
            sorts(s, values) && a == (s[0], s[(s.len() - 1) / 2], s[s.len() - 1]);
        let t = choose|t: Seq<u64>| #[trigger]
            sorts(t, values) && b == (t[0], t[(t.len() - 1) / 2], t[t.len() - 1]);
        vstd::seq_lib::lemma_sorted_unique(s, t, |x: u64, y: u64| x <= y);
    }
}

// ---------------------------------------------------------------------------
// Sections
// ---------------------------------------------------------------------------

/// The section on the conditions.
pub open spec fn methodology_section(m: Methodology) -> Seq<char> {
    "## Methodology\n\n"@ + "- **Machine:** "@ + m.machine@ + "\n"@ + "- **Versions hash:** `"@
        + m.versions_hash@ + "`\n"@ + "- **Runs:** "@ + text::decimal(m.runs as nat)
        + " measured ("@ + text::decimal(m.warmup_runs as nat) + " warm-up discarded)\n\n"@
}

/// The row of one migration.
pub open spec fn migration_row(r: MigrationRecord) -> Seq<char> {
    "| "@ + r.vm@ + " | "@ + r.from@ + " → "@ + r.to@ + " | "@ + millis(r.freeze_window_us as nat)
        + " | "@ + millis(r.e2e_us as nat) + " | "@ + text::decimal(r.bytes_moved as nat) + " | "@
        + text::decimal(r.faults_served as nat) + " |\n"@
}

/// The rows of migrations.
pub open spec fn migration_rows(records: Seq<MigrationRecord>) -> Seq<char>
    decreases records.len(),
{
    if records.len() == 0 {
        Seq::empty()
    } else {
        migration_rows(records.drop_last()) + migration_row(records.last())
    }
}

/// How long the VMs stood still.
pub open spec fn freezes(records: Seq<MigrationRecord>) -> Seq<u64> {
    records.map_values(|r: MigrationRecord| r.freeze_window_us)
}

/// The line that sums up how long the VMs stood still.
pub open spec fn freeze_line(count: nat, sum: (u64, u64, u64)) -> Seq<char> {
    "\n**Freeze window** across "@ + text::decimal(count) + " migration(s): min "@ + millis(
        sum.0 as nat,
    ) + " ms · median "@ + millis(sum.1 as nat) + " ms · max "@ + millis(sum.2 as nat)
        + " ms.\n\n"@
}

/// The section on the migrations, where `sum` sums up how long the VMs stood still.
pub open spec fn migrations_section(records: Seq<MigrationRecord>, sum: (u64, u64, u64)) -> Seq<
    char,
> {
    if records.len() == 0 {
        "## Migrations\n\n"@ + "_No migrations recorded._\n\n"@
    } else {
        "## Migrations\n\n"@
            + "| VM | From → To | Freeze (ms) | E2E (ms) | Bytes moved | Faults served |\n"@
            + "|----|-----------|------------:|---------:|------------:|--------------:|\n"@
            + migration_rows(records) + freeze_line(records.len(), sum)
    }
}

/// The row of one slice of latencies.
pub open spec fn latency_row(s: LatencySlice) -> Seq<char> {
    "| "@ + s.label@ + " | "@ + text::decimal(s.count as nat) + " | "@ + millis(s.p50_us as nat)
        + " | "@ + millis(s.p99_us as nat) + " |\n"@
}

/// The section on the latencies.
pub open spec fn latency_section(clean: LatencySlice, overlapping: LatencySlice) -> Seq<char> {
    "## Turn latency: clean vs. migration-overlapping\n\n"@
        + "| Slice | Samples | p50 (ms) | p99 (ms) |\n"@
        + "|-------|--------:|---------:|---------:|\n"@ + latency_row(clean) + latency_row(
        overlapping,
    ) + "\n**p99 delta** (overlapping − clean): "@ + signed_millis(
        delta(clean.p99_us, overlapping.p99_us),
    ) + " ms.\n\n"@
}

/// The rows of idle gaps.
pub open spec fn gap_rows(buckets: Seq<IdleGapBucket>) -> Seq<char>
    decreases buckets.len(),
{
    if buckets.len() == 0 {
        Seq::empty()
    } else {
        gap_rows(buckets.drop_last()) + ("| "@ + text::decimal(buckets.last().upper_ms as nat)
            + " | "@ + text::decimal(buckets.last().count as nat) + " |\n"@)
    }
}

/// The section on the idle gaps.
pub open spec fn gaps_section(buckets: Seq<IdleGapBucket>) -> Seq<char> {
    if buckets.len() == 0 {
        "## Idle-gap distribution\n\n"@ + "_No idle gaps recorded._\n"@
    } else {
        "## Idle-gap distribution\n\n"@ + "| ≤ ms | Count |\n"@ + "|-----:|------:|\n"@ + gap_rows(
            buckets,
        )
    }
}

/// The report as markdown, where `sum` sums up how long the VMs stood still.
pub open spec fn markdown(report: RunReport, sum: (u64, u64, u64)) -> Seq<char> {
    "# sleepwalk measurement report\n\n"@ + methodology_section(report.methodology)
        + migrations_section(report.migrations@, sum) + latency_section(
        report.latency_clean,
        report.latency_overlapping,
    ) + gaps_section(report.idle_gap_buckets@)
}

/// The section on the conditions.
fn render_methodology(m: &Methodology) -> (out: String)
    ensures
        out@ == methodology_section(*m),
{
    let mut out = "## Methodology\n\n".to_owned();
    out.append("- **Machine:** ");
    out.append(&m.machine);
    out.append("\n");
    out.append("- **Versions hash:** `");
    out.append(&m.versions_hash);
    out.append("`\n");
    out.append("- **Runs:** ");
    out.append(&decimal_of(m.runs as u64));
    out.append(" measured (");
    out.append(&decimal_of(m.warmup_runs as u64));
    out.append(" warm-up discarded)\n\n");
    out
}

/// The row of one migration.
fn render_migration(r: &MigrationRecord) -> (out: String)
    ensures
        out@ == migration_row(*r),
{
    let mut out = "| ".to_owned();
    out.append(&r.vm);
    out.append(" | ");
    out.append(&r.from);
    out.append(" → ");
    out.append(&r.to);
    out.append(" | ");
    out.append(&ms(r.freeze_window_us));
    out.append(" | ");
    out.append(&ms(r.e2e_us));
    out.append(" | ");
    out.append(&decimal_of(r.bytes_moved));
    out.append(" | ");
    out.append(&decimal_of(r.faults_served));
    out.append(" |\n");
    out
}

/// The section on the migrations.
fn render_migrations(records: &Vec<MigrationRecord>) -> (out: String)
    ensures
        exists|sum: (u64, u64, u64)| #[trigger]
            summarizes(sum, freezes(records@)) && out@ == migrations_section(records@, sum),
{
    let mut out = "## Migrations\n\n".to_owned();
    if records.len() == 0 {
        out.append("_No migrations recorded._\n\n");
        proof {
            assert(summarizes((0u64, 0u64, 0u64), freezes(records@)));
        }
        return out;
    }
    out.append("| VM | From → To | Freeze (ms) | E2E (ms) | Bytes moved | Faults served |\n");
    out.append("|----|-----------|------------:|---------:|------------:|--------------:|\n");
    let ghost head = out@;
    let mut times: Vec<u64> = Vec::new();
    let mut i: usize = 0;
    proof {
        assert(out@ =~= head + migration_rows(records@.take(0)));
        assert(times@ =~= freezes(records@.take(0)));
    }
    while i < records.len()
        invariant
            i <= records@.len(),
            out@ == head + migration_rows(records@.take(i as int)),
            times@ == freezes(records@.take(i as int)),
        decreases records@.len() - i,
    {
        out.append(&render_migration(&records[i]));
        times.push(records[i].freeze_window_us);
        proof {
            let upto = records@.take(i + 1);
            assert(upto.drop_last() =~= records@.take(i as int));
            assert(out@ =~= head + migration_rows(upto));
            assert(times@ =~= freezes(upto));
        }
        i = i + 1;
    }
    let sum = min_median_max(&times);
    out.append("\n**Freeze window** across ");
    out.append(&decimal_of(records.len() as u64));
    out.append(" migration(s): min ");
    out.append(&ms(sum.0));
    out.append(" ms · median ");
    out.append(&ms(sum.1));
    out.append(" ms · max ");
    out.append(&ms(sum.2));
    out.append(" ms.\n\n");
    proof {
        assert(records@.take(i as int) =~= records@);
        assert(summarizes(sum, freezes(records@)));
        assert(out@ =~= head + migration_rows(records@) + freeze_line(records@.len(), sum));
    }
    out
}

/// The row of one slice of latencies.
fn render_slice(s: &LatencySlice) -> (out: String)
    ensures
        out@ == latency_row(*s),
{
    let mut out = "| ".to_owned();
    out.append(&s.label);
    out.append(" | ");
    out.append(&decimal_of(s.count));
    out.append(" | ");
    out.append(&ms(s.p50_us));
    out.append(" | ");
    out.append(&ms(s.p99_us));
    out.append(" |\n");
    out
}

/// The section on the latencies.
fn render_latency(clean: &LatencySlice, overlapping: &LatencySlice) -> (out: String)
    ensures
        out@ == latency_section(*clean, *overlapping),
{
    let mut out = "## Turn latency: clean vs. migration-overlapping\n\n".to_owned();
    out.append("| Slice | Samples | p50 (ms) | p99 (ms) |\n");
    out.append("|-------|--------:|---------:|---------:|\n");
    out.append(&render_slice(clean));
    out.append(&render_slice(overlapping));
    out.append("\n**p99 delta** (overlapping − clean): ");
    out.append(&ms_signed(clean.p99_us, overlapping.p99_us));
    out.append(" ms.\n\n");
    out
}

/// The section on the idle gaps.
fn render_idle_gaps(buckets: &Vec<IdleGapBucket>) -> (out: String)
    ensures
        out@ == gaps_section(buckets@),
{
    let mut out = "## Idle-gap distribution\n\n".to_owned();
    if buckets.len() == 0 {
        out.append("_No idle gaps recorded._\n");
        return out;
    }
    out.append("| ≤ ms | Count |\n");
    out.append("|-----:|------:|\n");
    let ghost head = out@;
    let mut i: usize = 0;
    proof {
        assert(out@ =~= head + gap_rows(buckets@.take(0)));
    }
    while i < buckets.len()
        invariant
            i <= buckets@.len(),
            out@ == head + gap_rows(buckets@.take(i as int)),
        decreases buckets@.len() - i,
    {
        let ghost before = out@;
        out.append("| ");
        out.append(&decimal_of(buckets[i].upper_ms));
        out.append(" | ");
        out.append(&decimal_of(buckets[i].count));
        out.append(" |\n");
        proof {
            let upto = buckets@.take(i + 1);
            assert(upto.drop_last() =~= buckets@.take(i as int));
            assert(out@ =~= head + gap_rows(upto));
        }
        i = i + 1;
    }
    proof {
        assert(buckets@.take(i as int) =~= buckets@);
    }
    out
}

/// Writes a report out as markdown.
pub fn render_markdown(report: &RunReport) -> (out: String)
    ensures
        exists|sum: (u64, u64, u64)| #[trigger]
            summarizes(sum, freezes(report.migrations@)) && out@ == markdown(*report, sum),
{
    let mut out = "# sleepwalk measurement report\n\n".to_owned();
    out.append(&render_methodology(&report.methodology));
    out.append(&render_migrations(&report.migrations));
    out.append(&render_latency(&report.latency_clean, &report.latency_overlapping));
    out.append(&render_idle_gaps(&report.idle_gap_buckets));
    out
}

// ---------------------------------------------------------------------------
// What a report is for
// ---------------------------------------------------------------------------

/// A span is written in milliseconds without loss: three digits behind the point, and all the digits
/// together are the microseconds.
pub proof fn law_millis_lose_nothing(us: nat)
    ensures
        ({
            let t = millis(us);
            let n = t.len() as int;
            &&& n >= 5
            &&& t[n - 4] == '.'
            &&& text::digits_value(t.take(n - 4) + t.skip(n - 3), 10) == us
            &&& text::digits_value(t.take(n - 4), 10) == us / 1000
        }),
{
    let (whole, part) = (text::decimal(us / 1000), text::padded(us % 1000, 10, 3));
    let t = millis(us);
    let n = t.len() as int;
    text::law_decimal_is_digits(us / 1000);
    text::law_decimal_round_trip(us / 1000);
    reveal_with_fuel(text::power, 4);
    assert(text::power(10, 3) == 1000);
    text::law_padded_round_trip(us % 1000, 10, 3);
    reveal_strlit(".");
    assert(t.take(n - 4) =~= whole);
    assert(t.skip(n - 3) =~= part);
    text::law_digits_concatenate(whole, part, 10);
}

/// What is compared is later with earlier: slower reads as more, faster as less, with a minus sign.
pub proof fn law_delta_is_the_difference(earlier: u64, later: u64)
    requires
        earlier <= i64::MAX,
        later <= i64::MAX,
    ensures
        delta(earlier, later) == later - earlier,
        later >= earlier ==> signed_millis(delta(earlier, later)) == millis(
            (later - earlier) as nat,
        ),
        later < earlier ==> signed_millis(delta(earlier, later)) == "-"@ + millis(
            (earlier - later) as nat,
        ),
{
}

/// A number that is written down has no bars in it.
proof fn lemma_no_bars(n: nat)
    ensures
        !text::decimal(n).contains('|'),
        !millis(n).contains('|'),
{
    text::law_decimal_is_digits(n);
    text::law_decimal_is_digits(n / 1000);
    let d = text::decimal(n);
    assert forall|i: int| 0 <= i < d.len() implies d[i] != '|' by {
        assert('0' <= d[i] <= '9');
    }
    let (whole, part) = (text::decimal(n / 1000), text::padded(n % 1000, 10, 3));
    text::law_padded_round_trip(n % 1000, 10, 3);
    reveal_strlit(".");
    let t = millis(n);
    assert(text::digit_value('|') == 99);
    assert forall|i: int| 0 <= i < t.len() implies t[i] != '|' by {
        if i < whole.len() {
            assert(t[i] == whole[i]);
            assert('0' <= whole[i] <= '9');
        } else if i > whole.len() {
            assert(t[i] == part[i - whole.len() - 1]);
            assert(text::digit_value(part[i - whole.len() - 1]) < 10);
        }
    }
}

/// A cell of a row: a text with a space on both sides.
pub open spec fn cell(s: Seq<char>) -> Seq<char> {
    seq![' '] + s + seq![' ']
}

/// A cell holds no bar where its text does not.
proof fn lemma_cell_has_no_bar(s: Seq<char>)
    requires
        !s.contains('|'),
    ensures
        !cell(s).contains('|'),
{
    assert forall|i: int| 0 <= i < cell(s).len() implies cell(s)[i] != '|' by {
        if 0 < i < cell(s).len() - 1 {
            assert(cell(s)[i] == s[i - 1]);
            assert(s.contains(s[i - 1]));
        }
    }
}

/// A row begins with a bar.
proof fn lemma_row_begins(tail: Seq<char>)
    ensures
        text::split("| "@ + tail, '|') == seq![Seq::<char>::empty()] + text::split(
            seq![' '] + tail,
            '|',
        ),
{
    reveal_strlit("| ");
    let nothing = Seq::<char>::empty();
    assert("| "@ + tail =~= nothing.push('|') + (seq![' '] + tail));
    text::law_first_part_comes_off(nothing, '|', seq![' '] + tail);
}

/// A cell comes off the front of what is left of a row.
proof fn lemma_cell_comes_off(s: Seq<char>, tail: Seq<char>)
    requires
        !s.contains('|'),
    ensures
        text::split(seq![' '] + (s + " | "@ + tail), '|') == seq![cell(s)] + text::split(
            seq![' '] + tail,
            '|',
        ),
{
    reveal_strlit(" | ");
    lemma_cell_has_no_bar(s);
    assert(seq![' '] + (s + " | "@ + tail) =~= cell(s).push('|') + (seq![' '] + tail));
    text::law_first_part_comes_off(cell(s), '|', seq![' '] + tail);
}

/// The last cell ends a row.
proof fn lemma_last_cell(s: Seq<char>)
    requires
        !s.contains('|'),
    ensures
        text::split(seq![' '] + (s + " |\n"@), '|') == seq![cell(s), seq!['\n']],
{
    reveal_strlit(" |\n");
    lemma_cell_has_no_bar(s);
    let end = seq!['\n'];
    assert(seq![' '] + (s + " |\n"@) =~= cell(s).push('|') + end);
    text::law_first_part_comes_off(cell(s), '|', end);
    text::law_text_without_separator_is_one_part(end, '|');
    assert(seq![cell(s)] + seq![end] =~= seq![cell(s), end]);
}

/// What follows a cell can be taken together.
proof fn lemma_regroup(before: Seq<char>, s: Seq<char>, tail: Seq<char>)
    ensures
        before + s + " | "@ + tail == before + (s + " | "@ + tail),
{
    assert(before + s + " | "@ + tail =~= before + (s + " | "@ + tail));
}

/// A text of three can be taken together.
proof fn lemma_regroup_three(before: Seq<char>, a: Seq<char>, b: Seq<char>, c: Seq<char>)
    ensures
        before + a + b + c == before + (a + b + c),
{
    assert(before + a + b + c =~= before + (a + b + c));
}

/// A way between two hosts holds no bar where their names do not.
proof fn lemma_way_has_no_bar(from: Seq<char>, to: Seq<char>)
    requires
        !from.contains('|'),
        !to.contains('|'),
    ensures
        !(from + " → "@ + to).contains('|'),
{
    let way = from + " → "@ + to;
    reveal_strlit(" → ");
    assert forall|i: int| 0 <= i < way.len() implies way[i] != '|' by {
        let (nf, na) = (from.len() as int, " → "@.len() as int);
        if i < nf {
            assert(from.contains(from[i]));
        } else if i >= nf + na {
            assert(way[i] == to[i - nf - na]);
            assert(to.contains(to[i - nf - na]));
        }
    }
}

/// The row of a migration has its values in the order of the table's columns: the VM, its way, how
/// long it stood still, how long the move took, the bytes moved and the faults served.
pub proof fn law_migration_row_follows_the_columns(r: MigrationRecord)
    requires
        !r.vm@.contains('|'),
        !r.from@.contains('|'),
        !r.to@.contains('|'),
    ensures
        ({
            let cells = text::split(migration_row(r), '|');
            &&& cells.len() == 8
            &&& cells[1] == cell(r.vm@)
            &&& cells[2] == cell(r.from@ + " → "@ + r.to@)
            &&& cells[3] == cell(millis(r.freeze_window_us as nat))
            &&& cells[4] == cell(millis(r.e2e_us as nat))
            &&& cells[5] == cell(text::decimal(r.bytes_moved as nat))
            &&& cells[6] == cell(text::decimal(r.faults_served as nat))
        }),
{
    let way = r.from@ + " → "@ + r.to@;
    let (freeze, e2e) = (millis(r.freeze_window_us as nat), millis(r.e2e_us as nat));
    let (moved, served) = (
        text::decimal(r.bytes_moved as nat),
        text::decimal(r.faults_served as nat),
    );
    lemma_no_bars(r.freeze_window_us as nat);
    lemma_no_bars(r.e2e_us as nat);
    lemma_no_bars(r.bytes_moved as nat);
    lemma_no_bars(r.faults_served as nat);
    lemma_way_has_no_bar(r.from@, r.to@);
    let t6 = served + " |\n"@;
    let t5 = moved + " | "@ + t6;
    let t4 = e2e + " | "@ + t5;
    let t3 = freeze + " | "@ + t4;
    let t2 = way + " | "@ + t3;
    let t1 = r.vm@ + " | "@ + t2;
    let p1 = "| "@ + r.vm@ + " | "@;
    let p2 = p1 + way + " | "@;
    let p3 = p2 + freeze + " | "@;
    let p4 = p3 + e2e + " | "@;
    let p5 = p4 + moved + " | "@;
    lemma_regroup_three(p1, r.from@, " → "@, r.to@);
    assert(migration_row(r) == p5 + served + " |\n"@);
    assert(p5 + served + " |\n"@ =~= p5 + t6);
    lemma_regroup(p4, moved, t6);
    lemma_regroup(p3, e2e, t5);
    lemma_regroup(p2, freeze, t4);
    lemma_regroup(p1, way, t3);
    lemma_regroup("| "@, r.vm@, t2);
    lemma_row_begins(t1);
    lemma_cell_comes_off(r.vm@, t2);
    lemma_cell_comes_off(way, t3);
    lemma_cell_comes_off(freeze, t4);
    lemma_cell_comes_off(e2e, t5);
    lemma_cell_comes_off(moved, t6);
    lemma_last_cell(served);
}

/// The row of a slice has its values in the order of the table's columns: its label, how many samples
/// it has, the middle one and the one that all but a hundredth stay below.
pub proof fn law_latency_row_follows_the_columns(s: LatencySlice)
    requires
        !s.label@.contains('|'),
    ensures
        ({
            let cells = text::split(latency_row(s), '|');
            &&& cells.len() == 6
            &&& cells[1] == cell(s.label@)
            &&& cells[2] == cell(text::decimal(s.count as nat))
            &&& cells[3] == cell(millis(s.p50_us as nat))
            &&& cells[4] == cell(millis(s.p99_us as nat))
        }),
{
    let (count, p50, p99) = (
        text::decimal(s.count as nat),
        millis(s.p50_us as nat),
        millis(s.p99_us as nat),
    );
    lemma_no_bars(s.count as nat);
    lemma_no_bars(s.p50_us as nat);
    lemma_no_bars(s.p99_us as nat);
    let t4 = p99 + " |\n"@;
    let t3 = p50 + " | "@ + t4;
    let t2 = count + " | "@ + t3;
    let t1 = s.label@ + " | "@ + t2;
    assert(latency_row(s) =~= "| "@ + t1);
    lemma_row_begins(t1);
    lemma_cell_comes_off(s.label@, t2);
    lemma_cell_comes_off(count, t3);
    lemma_cell_comes_off(p50, t4);
    lemma_last_cell(p99);
}

/// How many values are less than `x`.
pub open spec fn below(values: Seq<u64>, x: u64) -> nat
    decreases values.len(),
{
    if values.len() == 0 {
        0
    } else {
        below(values.drop_last(), x) + (if values.last() < x {
            1nat
        } else {
            0
        })
    }
}

/// How many values are less than `x` is the same in whatever order they come.
proof fn lemma_below_by_multiset(values: Seq<u64>, x: u64)
    ensures
        below(values, x) == values.to_multiset().filter(|v: u64| v < x).len(),
    decreases values.len(),
{
    broadcast use vstd::seq_lib::group_to_multiset_ensures;

    let less = |v: u64| v < x;
    if values.len() == 0 {
        assert(values.to_multiset().filter(less) =~= Multiset::empty());
    } else {
        let init = values.drop_last();
        lemma_below_by_multiset(init, x);
        assert(values =~= init.push(values.last()));
        let all = values.to_multiset();
        assert(all =~= init.to_multiset().insert(values.last()));
        if values.last() < x {
            assert(all.filter(less) =~= init.to_multiset().filter(less).insert(values.last()));
        } else {
            assert(all.filter(less) =~= init.to_multiset().filter(less));
        }
    }
}

/// In order, the values less than `x` are those before the first that is not.
proof fn lemma_below_in_order(sorted: Seq<u64>, x: u64, k: int)
    requires
        0 <= k <= sorted.len(),
        forall|i: int| 0 <= i < k ==> (#[trigger] sorted[i]) < x,
        forall|i: int| k <= i < sorted.len() ==> (#[trigger] sorted[i]) >= x,
    ensures
        below(sorted, x) == k,
    decreases sorted.len(),
{
    if sorted.len() > 0 {
        let init = sorted.drop_last();
        if k == sorted.len() {
            assert(sorted[sorted.len() - 1] < x);
            lemma_below_in_order(init, x, k - 1);
        } else {
            assert(sorted[sorted.len() - 1] >= x);
            lemma_below_in_order(init, x, k);
        }
    }
}

/// The median lies in the middle: no more than half of the values, rounded down to one less than half
/// where they are even in number, are less than it, and more than that are not more than it.
pub proof fn law_median_lies_in_the_middle(values: Seq<u64>, out: (u64, u64, u64), x: u64)
    requires
        summarizes(out, values),
        values.len() > 0,
    ensures
        below(values, out.1) <= (values.len() - 1) / 2,
        x > out.1 ==> below(values, x) > (values.len() - 1) / 2,
        below(values, out.0) == 0,
        x > out.2 ==> below(values, x) == values.len(),
{
    let s = choose|s: Seq<u64>| #[trigger]
        sorts(s, values) && out == (s[0], s[(s.len() - 1) / 2], s[s.len() - 1]);
    broadcast use vstd::seq_lib::group_to_multiset_ensures;

    assert(s.len() == values.len()) by {
        assert(s.to_multiset().len() == values.to_multiset().len());
    }
    lemma_below_by_multiset(values, out.1);
    lemma_below_by_multiset(s, out.1);
    lemma_below_by_multiset(values, x);
    lemma_below_by_multiset(s, x);
    lemma_below_by_multiset(values, out.0);
    lemma_below_by_multiset(s, out.0);
    let m = (s.len() - 1) / 2;
    let a = lemma_cut(s, out.1, s.len() as int);
    lemma_below_in_order(s, out.1, a);
    if a > m {
        assert(s[m] < out.1);
    }
    let b = lemma_cut(s, x, s.len() as int);
    lemma_below_in_order(s, x, b);
    if x > out.1 && b <= m {
        assert(s[m] >= x);
    }
    if x > out.2 && b < s.len() {
        assert(s[b] >= x);
        assert(s[b] <= s[s.len() - 1]);
    }
    let c = lemma_cut(s, out.0, s.len() as int);
    lemma_below_in_order(s, out.0, c);
    if c > 0 {
        assert(s[0] < out.0);
    }
}

/// Values in order fall into those less than `x` and those that are not.
proof fn lemma_cut(sorted: Seq<u64>, x: u64, n: int) -> (k: int)
    requires
        is_sorted(sorted),
        0 <= n <= sorted.len(),
        forall|i: int| n <= i < sorted.len() ==> (#[trigger] sorted[i]) >= x,
    ensures
        0 <= k <= sorted.len(),
        forall|i: int| 0 <= i < k ==> (#[trigger] sorted[i]) < x,
        forall|i: int| k <= i < sorted.len() ==> (#[trigger] sorted[i]) >= x,
    decreases n,
{
    if n == 0 {
        0
    } else if sorted[n - 1] < x {
        assert forall|i: int| 0 <= i < n implies (#[trigger] sorted[i]) < x by {
            assert(sorted[i] <= sorted[n - 1]);
        }
        n
    } else {
        lemma_cut(sorted, x, n - 1)
    }
}

/// The line on the freeze window names each of its numbers, and says how many migrations it is of.
pub proof fn law_freeze_line_names_its_numbers(count: nat, sum: (u64, u64, u64))
    ensures
        text::has_part(freeze_line(count, sum), text::decimal(count) + " migration(s)"@),
        text::has_part(freeze_line(count, sum), "min "@ + millis(sum.0 as nat) + " ms"@),
        text::has_part(freeze_line(count, sum), "median "@ + millis(sum.1 as nat) + " ms"@),
        text::has_part(freeze_line(count, sum), "max "@ + millis(sum.2 as nat) + " ms"@),
{
    let (c, lo, mid, hi) = (
        text::decimal(count),
        millis(sum.0 as nat),
        millis(sum.1 as nat),
        millis(sum.2 as nat),
    );
    let line = freeze_line(count, sum);
    let begin = "\n**Freeze window** across "@;
    reveal_strlit(" migration(s): min ");
    reveal_strlit(" ms · median ");
    reveal_strlit(" ms · max ");
    reveal_strlit(" ms.\n\n");
    reveal_strlit(" migration(s)");
    reveal_strlit("min ");
    reveal_strlit("median ");
    reveal_strlit("max ");
    reveal_strlit(" ms");
    let i0 = begin.len() as int;
    let i1 = i0 + c.len() + 15;
    let i2 = i1 + 4 + lo.len() + 6;
    let i3 = i2 + 7 + mid.len() + 6;
    assert(text::part_at(line, c + " migration(s)"@, i0)) by {
        assert(line.subrange(i0, i0 + c.len() + 13) =~= c + " migration(s)"@);
    }
    assert(text::part_at(line, "min "@ + lo + " ms"@, i1)) by {
        assert(line.subrange(i1, i1 + 4 + lo.len() + 3) =~= "min "@ + lo + " ms"@);
    }
    assert(text::part_at(line, "median "@ + mid + " ms"@, i2)) by {
        assert(line.subrange(i2, i2 + 7 + mid.len() + 3) =~= "median "@ + mid + " ms"@);
    }
    assert(text::part_at(line, "max "@ + hi + " ms"@, i3)) by {
        assert(line.subrange(i3, i3 + 4 + hi.len() + 3) =~= "max "@ + hi + " ms"@);
    }
}

/// Rows come in the order of what they are of.
pub proof fn law_rows_come_in_order(a: Seq<MigrationRecord>, b: Seq<MigrationRecord>)
    ensures
        migration_rows(a + b) == migration_rows(a) + migration_rows(b),
    decreases b.len(),
{
    if b.len() == 0 {
        assert(a + b =~= a);
        assert(migration_rows(a) + migration_rows(b) =~= migration_rows(a));
    } else {
        law_rows_come_in_order(a, b.drop_last());
        assert((a + b).drop_last() =~= a + b.drop_last());
        assert((a + b).last() == b.last());
        assert(migration_rows(a + b) =~= migration_rows(a) + migration_rows(b));
    }
}

/// So do those of the idle gaps.
pub proof fn law_gap_rows_come_in_order(a: Seq<IdleGapBucket>, b: Seq<IdleGapBucket>)
    ensures
        gap_rows(a + b) == gap_rows(a) + gap_rows(b),
    decreases b.len(),
{
    if b.len() == 0 {
        assert(a + b =~= a);
        assert(gap_rows(a) + gap_rows(b) =~= gap_rows(a));
    } else {
        law_gap_rows_come_in_order(a, b.drop_last());
        assert((a + b).drop_last() =~= a + b.drop_last());
        assert((a + b).last() == b.last());
        assert(gap_rows(a + b) =~= gap_rows(a) + gap_rows(b));
    }
}

/// A report tells of every migration that it has, and says so where it has none.
pub proof fn law_report_tells_of_every_migration(records: Seq<MigrationRecord>, sum: (u64, u64, u64))
    ensures
        records.len() == 0 ==> text::ends_with(
            migrations_section(records, sum),
            "_No migrations recorded._\n\n"@,
        ),
        records.len() > 0 ==> text::ends_with(
            migrations_section(records, sum),
            migration_rows(records) + freeze_line(records.len(), sum),
        ),
        text::starts_with(migrations_section(records, sum), "## Migrations\n\n"@),
{
    let begin = "## Migrations\n\n"@;
    if records.len() == 0 {
        text::law_parts_are_found(begin, "_No migrations recorded._\n\n"@, Seq::empty());
        text::law_parts_are_found(Seq::empty(), begin, "_No migrations recorded._\n\n"@);
    } else {
        let head = "| VM | From → To | Freeze (ms) | E2E (ms) | Bytes moved | Faults served |\n"@;
        let rule = "|----|-----------|------------:|---------:|------------:|--------------:|\n"@;
        let rows = migration_rows(records);
        let line = freeze_line(records.len(), sum);
        let section = migrations_section(records, sum);
        assert(section =~= (begin + head + rule) + (rows + line));
        text::law_parts_are_found(begin + head + rule, rows + line, Seq::empty());
        assert(section =~= begin + (head + rule + rows + line));
        text::law_parts_are_found(Seq::empty(), begin, head + rule + rows + line);
    }
}

/// So it does of the idle gaps.
pub proof fn law_report_tells_of_every_gap(buckets: Seq<IdleGapBucket>)
    ensures
        buckets.len() == 0 ==> text::ends_with(gaps_section(buckets), "_No idle gaps recorded._\n"@),
        buckets.len() > 0 ==> text::ends_with(gaps_section(buckets), gap_rows(buckets)),
{
    let begin = "## Idle-gap distribution\n\n"@;
    if buckets.len() == 0 {
        text::law_parts_are_found(begin, "_No idle gaps recorded._\n"@, Seq::empty());
    } else {
        text::law_parts_are_found(
            begin + "| ≤ ms | Count |\n"@ + "|-----:|------:|\n"@,
            gap_rows(buckets),
            Seq::empty(),
        );
    }
}

} // verus!
