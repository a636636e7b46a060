//! Which hosts can restore which snapshots.
//!
//! A snapshot restores only on a host whose CPU and kernel are close enough to those of the host
//! that took it. What blocks a restore in practice is the frequency of the time stamp counter
//! (TSC): past a small tolerance the target must be able to scale it in hardware. The rebalancer
//! asks here before it attempts a move.

use vstd::prelude::*;

use crate::text;
use crate::text::{decimal_of, split_on};

verus! {

/// How far two TSC frequencies may lie apart and still count as one, in parts per million.
const TSC_TOLERANCE_PPM: u64 = 250;

/// What decides whether a snapshot of one host restores on another.
#[derive(Debug, PartialEq, Eq)]
pub struct CompatClass {
    /// CPU vendor string. Never crossed.
    pub vendor: String,
    /// CPU model name, matched exactly.
    pub model: String,
    /// Measured TSC frequency in kHz.
    pub tsc_khz: u32,
    /// Host kernel release, compared at the level of major.minor.
    pub kernel: String,
}

impl Clone for CompatClass {
    fn clone(&self) -> (copy: CompatClass)
        ensures
            copy == *self,
    {
        CompatClass {
            vendor: self.vendor.clone(),
            model: self.model.clone(),
            tsc_khz: self.tsc_khz,
            kernel: self.kernel.clone(),
        }
    }
}

/// The decimal digits that `s` begins with.
pub open spec fn leading_digits(s: Seq<char>) -> Seq<char>
    decreases s.len(),
{
    if s.len() > 0 && '0' <= s[0] <= '9' {
        seq![s[0]] + leading_digits(s.skip(1))
    } else {
        Seq::empty()
    }
}

/// The major.minor of a kernel release. A minor number that carries a suffix keeps its leading
/// digits; a release without a dot stands for itself.
pub open spec fn tier(release: Seq<char>) -> Seq<char> {
    let parts = text::split(release, '.');
    if parts.len() >= 2 {
        parts[0] + "."@ + leading_digits(parts[1])
    } else {
        parts[0]
    }
}

/// Whether two TSC frequencies lie within the tolerance, relative to the higher one.
pub open spec fn tsc_close(a: u32, b: u32) -> bool {
    let hi = if a >= b { a } else { b };
    let lo = if a >= b { b } else { a };
    (hi - lo) * 1_000_000 <= hi * 250
}

impl CompatClass {
    /// Whether a snapshot taken on `self` can be restored on `other`.
    pub open spec fn compatible(&self, other: &CompatClass) -> bool {
        &&& self.vendor@ == other.vendor@
        &&& self.model@ == other.model@
        &&& tier(self.kernel@) == tier(other.kernel@)
        &&& tsc_close(self.tsc_khz, other.tsc_khz)
    }

    /// The text of [`label`](CompatClass::label).
    pub open spec fn label_text(&self) -> Seq<char> {
        self.vendor@ + "/"@ + self.model@ + "/"@ + text::decimal((self.tsc_khz / 1000) as nat) + "MHz/"@
            + tier(self.kernel@)
    }

    /// Whether a snapshot taken on `self` can be restored on `other`: same vendor and model,
    /// kernels of the same major.minor, and TSC frequencies within the tolerance.
    pub fn compatible_with(&self, other: &CompatClass) -> (ok: bool)
        ensures
            ok == self.compatible(other),
    {
        self.vendor == other.vendor && self.model == other.model && kernel_tier(&self.kernel)
            == kernel_tier(&other.kernel) && tsc_within_tolerance(self.tsc_khz, other.tsc_khz)
    }

    /// A short label for dashboards and logs.
    pub fn label(&self) -> (out: String)
        ensures
            out@ == self.label_text(),
    {
        let mut out = self.vendor.clone();
        out.append("/");
        out.append(&self.model);
        out.append("/");
        out.append(&decimal_of((self.tsc_khz / 1000) as u64));
        out.append("MHz/");
        out.append(&kernel_tier(&self.kernel));
        out
    }

    /// Every host can restore its own snapshots.
    pub proof fn law_compatible_with_itself(a: &CompatClass)
        ensures
            a.compatible(a),
    {
    }

    /// Compatibility does not depend on the direction of the move.
    pub proof fn law_compatible_both_ways(a: &CompatClass, b: &CompatClass)
        ensures
            a.compatible(b) == b.compatible(a),
    {
    }

    /// Only the major.minor of the kernel counts: releases of one tier are interchangeable.
    pub proof fn law_kernel_patches_do_not_split(
        a: &CompatClass,
        b: &CompatClass,
        patched: &CompatClass,
    )
        requires
            patched.vendor@ == b.vendor@,
            patched.model@ == b.model@,
            patched.tsc_khz == b.tsc_khz,
            tier(patched.kernel@) == tier(b.kernel@),
        ensures
            a.compatible(patched) == a.compatible(b),
    {
    }
}

/// Whether two TSC frequencies lie within the tolerance.
fn tsc_within_tolerance(a: u32, b: u32) -> (ok: bool)
    ensures
        ok == tsc_close(a, b),
{
    let (hi, lo): (u32, u32) = if a >= b {
        (a, b)
    } else {
        (b, a)
    };
    let diff: u64 = (hi - lo) as u64;
    diff * 1_000_000 <= hi as u64 * TSC_TOLERANCE_PPM
}

/// The decimal digits that `s` begins with.
fn digits_at_start(s: &str) -> (out: String)
    ensures
        out@ == leading_digits(s@),
{
    let chars = text::chars_of(s);
    let mut out: String = String::new();
    let mut i: usize = 0;
    proof {
        assert(s@.skip(0) =~= s@);
        assert(Seq::<char>::empty() + leading_digits(s@) =~= leading_digits(s@));
    }
    while i < chars.len() && '0' <= chars[i] && chars[i] <= '9'
        invariant
            i <= chars@.len(),
            chars@ == s@,
            out@ + leading_digits(s@.skip(i as int)) == leading_digits(s@),
        decreases chars@.len() - i,
    {
        proof {
            let rest = s@.skip(i as int);
            assert(rest.skip(1) =~= s@.skip(i + 1));
            assert(out@.push(s@[i as int]) + leading_digits(s@.skip(i + 1)) =~= out@
                + leading_digits(rest));
        }
        out.push(chars[i]);
        i = i + 1;
    }
    proof {
        assert(leading_digits(s@.skip(i as int)) =~= Seq::<char>::empty());
        assert(out@ + Seq::<char>::empty() =~= out@);
    }
    out
}

/// The major.minor of a kernel release.
fn kernel_tier(release: &str) -> (out: String)
    ensures
        out@ == tier(release@),
{
    let parts = split_on(release, '.');
    let ghost spec_parts = text::split(release@, '.');
    proof {
        assert(text::views(parts@).len() == parts@.len());
        assert(text::views(parts@)[0] == parts@[0]@);
    }
    if parts.len() >= 2 {
        proof {
            assert(text::views(parts@)[1] == parts@[1]@);
        }
        let mut out = parts[0].clone();
        out.append(".");
        out.append(&digits_at_start(&parts[1]));
        out
    } else {
        parts[0].clone()
    }
}

// ---------------------------------------------------------------------------
// What hosts can exchange snapshots
// ---------------------------------------------------------------------------

/// Digits with something behind them that begins with no digit are all of the leading digits.
proof fn lemma_leading_digits(digits: Seq<char>, rest: Seq<char>)
    requires
        text::all_digits(digits),
        rest.len() > 0 ==> !('0' <= rest[0] <= '9'),
    ensures
        leading_digits(digits + rest) == digits,
    decreases digits.len(),
{
    let whole = digits + rest;
    if digits.len() == 0 {
        assert(whole =~= rest);
        assert(leading_digits(whole) =~= digits);
    } else {
        assert(whole[0] == digits[0]);
        assert(whole.skip(1) =~= digits.skip(1) + rest);
        assert forall|i: int| 0 <= i < digits.skip(1).len() implies '0' <= #[trigger] digits.skip(
            1,
        )[i] <= '9' by {
            assert(digits.skip(1)[i] == digits[i + 1]);
        }
        lemma_leading_digits(digits.skip(1), rest);
        assert(seq![digits[0]] + digits.skip(1) =~= digits);
    }
}

/// The first part of a text is all of it up to the first separator.
proof fn lemma_first_part(s: Seq<char>, sep: char, n: int)
    requires
        0 <= n <= s.len(),
        forall|i: int| 0 <= i < n ==> #[trigger] s[i] != sep,
        n < s.len() ==> s[n] == sep,
    ensures
        text::split(s, sep)[0] == s.take(n),
        text::split(s, sep).len() >= 1,
        n < s.len() ==> text::split(s, sep) == seq![s.take(n)] + text::split(s.skip(n + 1), sep),
{
    let head = s.take(n);
    let is_sep = text::just(sep);
    text::law_split_without_a_separator(head, is_sep);
    if n < s.len() {
        assert(head.push(sep) + s.skip(n + 1) =~= s);
        text::law_split_at_a_separator(head, sep, s.skip(n + 1), is_sep);
    } else {
        assert(head =~= s);
    }
}

/// How many characters `s` has before the first `sep`.
spec fn before_sep(s: Seq<char>, sep: char) -> int
    decreases s.len(),
{
    if s.len() == 0 || s[0] == sep {
        0
    } else {
        1 + before_sep(s.skip(1), sep)
    }
}

proof fn lemma_before_sep(s: Seq<char>, sep: char)
    ensures
        0 <= before_sep(s, sep) <= s.len(),
        forall|i: int| 0 <= i < before_sep(s, sep) ==> #[trigger] s[i] != sep,
        before_sep(s, sep) < s.len() ==> s[before_sep(s, sep)] == sep,
    decreases s.len(),
{
    if s.len() > 0 && s[0] != sep {
        let rest = s.skip(1);
        lemma_before_sep(rest, sep);
        assert forall|i: int| 0 <= i < before_sep(s, sep) implies #[trigger] s[i] != sep by {
            if i > 0 {
                assert(s[i] == rest[i - 1]);
            }
        }
        if before_sep(s, sep) < s.len() {
            assert(s[before_sep(s, sep)] == rest[before_sep(rest, sep)]);
        }
    }
}

/// The tier of a release is its major.minor, whole: `major` has no dot, `minor` is a decimal number
/// of any length, and what follows it, be it a dot, a suffix or nothing, does not count.
pub proof fn law_tier_is_major_minor(major: Seq<char>, minor: Seq<char>, rest: Seq<char>)
    requires
        forall|i: int| 0 <= i < major.len() ==> #[trigger] major[i] != '.',
        text::all_digits(minor),
        rest.len() > 0 ==> !('0' <= rest[0] <= '9'),
    ensures
        tier(major.push('.') + minor + rest) == major.push('.') + minor,
{
    let release = major.push('.') + minor + rest;
    let tail = minor + rest;
    assert(release =~= major.push('.') + tail);
    let is_sep = text::just('.');
    text::law_split_without_a_separator(major, is_sep);
    text::law_split_at_a_separator(major, '.', tail, is_sep);
    let n = before_sep(tail, '.');
    lemma_before_sep(tail, '.');
    lemma_first_part(tail, '.', n);
    assert(minor.len() <= n) by {
        if n < minor.len() {
            assert(tail[n] == minor[n]);
        }
    }
    let behind = rest.take(n - minor.len());
    assert(tail.take(n) =~= minor + behind);
    lemma_leading_digits(minor, behind);
    let parts = text::split(release, '.');
    assert(parts[0] == major);
    assert(parts[1] == text::split(tail, '.')[0]);
    reveal_strlit(".");
    assert(major + "."@ + minor =~= major.push('.') + minor);
}

/// The release of a kernel `major.minor`, followed by `rest`.
pub open spec fn release_of(major: nat, minor: nat, rest: Seq<char>) -> Seq<char> {
    text::decimal(major).push('.') + text::decimal(minor) + rest
}

/// Kernels of different major or minor numbers never exchange snapshots, and those of the same
/// always may, as far as the kernel goes: what follows the minor number does not count.
pub proof fn law_kernels_are_told_apart(
    a: &CompatClass,
    b: &CompatClass,
    kernel_a: (nat, nat, Seq<char>),
    kernel_b: (nat, nat, Seq<char>),
)
    requires
        a.kernel@ == release_of(kernel_a.0, kernel_a.1, kernel_a.2),
        b.kernel@ == release_of(kernel_b.0, kernel_b.1, kernel_b.2),
        kernel_a.2.len() > 0 ==> !('0' <= kernel_a.2[0] <= '9'),
        kernel_b.2.len() > 0 ==> !('0' <= kernel_b.2[0] <= '9'),
    ensures
        (kernel_a.0, kernel_a.1) != (kernel_b.0, kernel_b.1) ==> !a.compatible(b),
        (kernel_a.0, kernel_a.1) == (kernel_b.0, kernel_b.1) && a.vendor@ == b.vendor@ && a.model@
            == b.model@ && a.tsc_khz == b.tsc_khz ==> a.compatible(b),
{
    let (ma, na) = (text::decimal(kernel_a.0), text::decimal(kernel_a.1));
    let (mb, nb) = (text::decimal(kernel_b.0), text::decimal(kernel_b.1));
    text::law_decimal_is_digits(kernel_a.0);
    text::law_decimal_is_digits(kernel_a.1);
    text::law_decimal_is_digits(kernel_b.0);
    text::law_decimal_is_digits(kernel_b.1);
    law_tier_is_major_minor(ma, na, kernel_a.2);
    law_tier_is_major_minor(mb, nb, kernel_b.2);
    let (ta, tb) = (ma.push('.') + na, mb.push('.') + nb);
    if ta == tb {
        if ma.len() < mb.len() {
            assert(ta[ma.len() as int] == '.');
            assert(tb[ma.len() as int] == mb[ma.len() as int]);
        } else if mb.len() < ma.len() {
            assert(tb[mb.len() as int] == '.');
            assert(ta[mb.len() as int] == ma[mb.len() as int]);
        }
        assert(ma =~= ta.take(ma.len() as int));
        assert(mb =~= tb.take(mb.len() as int));
        assert(na =~= ta.skip(ma.len() as int + 1));
        assert(nb =~= tb.skip(mb.len() as int + 1));
        text::lemma_decimal_injective(kernel_a.0, kernel_b.0);
        text::lemma_decimal_injective(kernel_a.1, kernel_b.1);
    }
}

/// Vendors and models are never crossed, and TSC frequencies that lie more than one part in four
/// thousand of the higher one apart are not either. What agrees in all of these, and in its kernel
/// release, is compatible.
pub proof fn law_compatible_means_close(a: &CompatClass, b: &CompatClass)
    ensures
        a.compatible(b) ==> a.vendor@ == b.vendor@ && a.model@ == b.model@,
        a.compatible(b) ==> 4000 * (a.tsc_khz - b.tsc_khz) <= a.tsc_khz,
        a.compatible(b) ==> 4000 * (b.tsc_khz - a.tsc_khz) <= b.tsc_khz,
        a.vendor@ == b.vendor@ && a.model@ == b.model@ && a.kernel@ == b.kernel@ && 4000 * (
        a.tsc_khz - b.tsc_khz) <= a.tsc_khz && 4000 * (b.tsc_khz - a.tsc_khz) <= b.tsc_khz
            ==> a.compatible(b),
{
}

/// The label says what decides: hosts of one label have the same vendor, model and kernel tier
/// spelled out in it, in this order, behind one another.
pub proof fn law_label_spells_out_the_class(a: &CompatClass)
    ensures
        a.label_text().len() == a.vendor@.len() + 1 + a.model@.len() + 1 + text::decimal(
            (a.tsc_khz / 1000) as nat,
        ).len() + 4 + tier(a.kernel@).len(),
        text::starts_with(a.label_text(), a.vendor@),
        text::ends_with(a.label_text(), tier(a.kernel@)),
        a.label_text().subrange(
            a.vendor@.len() as int + 1,
            (a.vendor@.len() + 1 + a.model@.len()) as int,
        ) == a.model@,
{
    reveal_strlit("/");
    reveal_strlit("MHz/");
    let label = a.label_text();
    let v = a.vendor@.len() as int;
    assert(label.take(v) =~= a.vendor@);
    assert(label.skip(label.len() - tier(a.kernel@).len()) =~= tier(a.kernel@));
    assert(label.subrange(v + 1, v + 1 + a.model@.len()) =~= a.model@);
}

/// A release without a dot is its own tier.
pub proof fn law_tier_without_a_dot(release: Seq<char>)
    requires
        !release.contains('.'),
    ensures
        tier(release) == release,
{
    text::law_text_without_separator_is_one_part(release, '.');
}

/// The label gives the clock in whole megahertz, between the model and the tier.
pub proof fn law_label_gives_the_clock(a: &CompatClass)
    ensures
        ({
            let (from, n) = (
                (a.vendor@.len() + 1 + a.model@.len() + 1) as int,
                text::decimal((a.tsc_khz / 1000) as nat).len() as int,
            );
            let clock = a.label_text().subrange(from, from + n);
            &&& 1000 * text::digits_value(clock, 10) <= a.tsc_khz
            &&& a.tsc_khz < 1000 * text::digits_value(clock, 10) + 1000
            &&& text::all_digits(clock)
        }),
{
    let mhz = text::decimal((a.tsc_khz / 1000) as nat);
    reveal_strlit("/");
    let from = (a.vendor@.len() + 1 + a.model@.len() + 1) as int;
    assert(a.label_text().subrange(from, from + mhz.len()) =~= mhz);
    text::law_decimal_is_digits((a.tsc_khz / 1000) as nat);
    text::law_decimal_round_trip((a.tsc_khz / 1000) as nat);
}

} // verus!
