//! This host's compatibility class, from what its kernel says of it.

use vstd::prelude::*;

use crate::proto::compat::CompatClass;
use crate::text;
use crate::text::{same_text, split_at_first, split_on, trimmed};

verus! {

/// The value under `key` in lines of the form `key: value`: that of the first such line.
pub open spec fn first_value(lines: Seq<Seq<char>>, key: Seq<char>) -> Option<Seq<char>>
    decreases lines.len(),
{
    if lines.len() == 0 {
        None
    } else {
        match text::split_once(lines[0], ':') {
            Some((k, v)) => if text::trim(k) == key {
                Some(text::trim(v))
            } else {
                first_value(lines.skip(1), key)
            },
            None => first_value(lines.skip(1), key),
        }
    }
}

/// A text that may be missing.
pub open spec fn or_unknown(value: Option<Seq<char>>) -> Seq<char> {
    match value {
        Some(v) => v,
        None => "unknown"@,
    }
}

/// The value under `key` in lines of the form `key: value`.
fn cpu_field(info: &str, key: &str) -> (value: String)
    ensures
        value@ == or_unknown(first_value(text::split(info@, '\n'), key@)),
{
    let lines = split_on(info, '\n');
    let ghost all = text::views(lines@);
    let mut i: usize = 0;
    proof {
        assert(all.skip(0) =~= all);
    }
    while i < lines.len()
        invariant
            i <= lines@.len(),
            all == text::views(lines@),
            all == text::split(info@, '\n'),
            first_value(all.skip(i as int), key@) == first_value(all, key@),
        decreases lines@.len() - i,
    {
        proof {
            assert(all.skip(i as int)[0] == lines@[i as int]@);
            assert(all.skip(i as int).skip(1) =~= all.skip(i + 1));
        }
        if let Some((k, v)) = split_at_first(&lines[i], ':') {
            if same_text(&trimmed(&k), key) {
                return trimmed(&v);
            }
        }
        i = i + 1;
    }
    "unknown".to_owned()
}

/// The class of a host whose `/proc/cpuinfo` holds `cpuinfo`, whose kernel release file holds
/// `osrelease` and whose TSC runs at `tsc_khz`. What is missing is unknown.
pub fn detect(cpuinfo: &str, osrelease: Option<String>, tsc_khz: u32) -> (class: CompatClass)
    ensures
        class.vendor@ == or_unknown(first_value(text::split(cpuinfo@, '\n'), "vendor_id"@)),
        class.model@ == or_unknown(first_value(text::split(cpuinfo@, '\n'), "model name"@)),
        class.tsc_khz == tsc_khz,
        class.kernel@ == match osrelease {
            Some(release) => text::trim(release@),
            None => "unknown"@,
        },
{
    let kernel = match osrelease {
        Some(release) => trimmed(&release),
        None => "unknown".to_owned(),
    };
    CompatClass {
        vendor: cpu_field(cpuinfo, "vendor_id"),
        model: cpu_field(cpuinfo, "model name"),
        tsc_khz,
        kernel,
    }
}

/// A value is what stands behind the first colon of the first line of its key, without the white space
/// around it.
pub proof fn law_value_stands_behind_the_colon(
    lines: Seq<Seq<char>>,
    i: int,
    key: Seq<char>,
    name: Seq<char>,
    value: Seq<char>,
)
    requires
        0 <= i < lines.len(),
        lines[i] == name.push(':') + value,
        !name.contains(':'),
        text::trim(name) == key,
        forall|j: int|
            0 <= j < i ==> !(text::split_once(#[trigger] lines[j], ':') matches Some((k, _))
                && text::trim(k) == key),
    ensures
        first_value(lines, key) == Some(text::trim(value)),
    decreases i,
{
    text::law_split_once_at_the_first(name, ':', value);
    if i > 0 {
        let rest = lines.skip(1);
        assert(rest[i - 1] == lines[i]);
        assert(!(text::split_once(lines[0], ':') matches Some((k, _)) && text::trim(k) == key));
        assert forall|j: int| 0 <= j < i - 1 implies !(text::split_once(
            #[trigger] rest[j],
            ':',
        ) matches Some((k, _)) && text::trim(k) == key) by {
            assert(rest[j] == lines[j + 1]);
        }
        law_value_stands_behind_the_colon(rest, i - 1, key, name, value);
    }
}

/// A value that is known is taken as it is.
pub proof fn law_known_values_stay(value: Seq<char>)
    ensures
        or_unknown(Some(value)) == value,
        or_unknown(None) == "unknown"@,
{
}

} // verus!
