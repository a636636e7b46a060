//! How much of a host's memory is in use.
//!
//! The pressure of a host is the part of its memory that is in use, and what counts as available is
//! the kernel's own estimate, which leaves out cache that it can reclaim.

use vstd::prelude::*;

use crate::text;
use crate::text::{begins_with, chars_of, parse_number, split_on, string_of, words_of};

verus! {

/// How much memory is in use, and of how much.
#[derive(Clone, Copy, Debug, PartialEq, Eq, Structural)]
pub struct MemoryUse {
    /// The memory in use, in kB.
    pub in_use: u64,
    /// The memory in all, in kB. Never zero.
    pub total: u64,
}

/// The number that a line's value begins with.
pub open spec fn kilobytes(value: Seq<char>) -> Option<nat> {
    let words = text::words(value);
    if words.len() == 0 {
        None
    } else {
        text::parse_unsigned(words[0], 10, u64::MAX as nat)
    }
}

/// The number under `key`: that of the last line that begins with it.
pub open spec fn field(lines: Seq<Seq<char>>, key: Seq<char>) -> Option<nat>
    decreases lines.len(),
{
    if lines.len() == 0 {
        None
    } else if text::starts_with(lines.last(), key) {
        kilobytes(lines.last().skip(key.len() as int))
    } else {
        field(lines.drop_last(), key)
    }
}

/// What `/proc/meminfo` says of the memory in use: nothing where the total or what is available is
/// missing, or the total is zero.
pub open spec fn usage(meminfo: Seq<char>) -> Option<(nat, nat)> {
    let lines = text::split(meminfo, '\n');
    match (field(lines, "MemTotal:"@), field(lines, "MemAvailable:"@)) {
        (Some(total), Some(available)) => if total == 0 {
            None
        } else if available <= total {
            Some(((total - available) as nat, total))
        } else {
            Some((0, total))
        },
        _ => None,
    }
}

/// The number that a line's value begins with.
fn parse_kb(value: &str) -> (out: Option<u64>)
    ensures
        match out {
            Some(n) => kilobytes(value@) == Some(n as nat),
            None => kilobytes(value@) is None,
        },
{
    let words = words_of(value);
    proof {
        assert(text::views(words@).len() == words@.len());
    }
    if words.len() == 0 {
        return None;
    }
    proof {
        assert(text::views(words@)[0] == words@[0]@);
    }
    parse_number(&words[0], 10, u64::MAX)
}

/// The number under `key`.
fn find_field(lines: &Vec<String>, key: &str) -> (out: Option<u64>)
    ensures
        match out {
            Some(n) => field(text::views(lines@), key@) == Some(n as nat),
            None => field(text::views(lines@), key@) is None,
        },
{
    let ghost all = text::views(lines@);
    let key_len: usize = chars_of(key).len();
    let mut i: usize = lines.len();
    proof {
        assert(all.take(i as int) =~= all);
    }
    while i > 0
        invariant
            i <= lines@.len(),
            all == text::views(lines@),
            key_len == key@.len(),
            field(all.take(i as int), key@) == field(all, key@),
        decreases i,
    {
        let line = &lines[i - 1];
        proof {
            assert(all.take(i as int).last() == line@);
            assert(all.take(i as int).drop_last() =~= all.take(i - 1));
        }
        if begins_with(line, key) {
            let chars = chars_of(line);
            let value = string_of(&chars, key_len, chars.len());
            proof {
                assert(value@ =~= line@.skip(key@.len() as int));
            }
            return parse_kb(&value);
        }
        i = i - 1;
    }
    proof {
        assert(all.take(0) =~= Seq::<Seq<char>>::empty());
    }
    None
}

/// Reads the memory in use from the contents of `/proc/meminfo`.
pub fn parse_pressure(meminfo: &str) -> (out: Option<MemoryUse>)
    ensures
        match out {
            Some(m) => usage(meminfo@) == Some((m.in_use as nat, m.total as nat)) && m.total > 0
                && m.in_use <= m.total,
            None => usage(meminfo@) is None,
        },
{
    let lines = split_on(meminfo, '\n');
    let total: u64 = match find_field(&lines, "MemTotal:") {
        Some(n) => n,
        None => {
            return None;
        },
    };
    let available: u64 = match find_field(&lines, "MemAvailable:") {
        Some(n) => n,
        None => {
            return None;
        },
    };
    if total == 0 {
        return None;
    }
    Some(MemoryUse { in_use: total.saturating_sub(available), total })
}

/// What is in use is what is not available: the two make up the total, unless more is said to be
/// available than there is, and then nothing is in use.
pub proof fn law_use_and_available_make_the_total(meminfo: Seq<char>, total: nat, available: nat)
    requires
        field(text::split(meminfo, '\n'), "MemTotal:"@) == Some(total),
        field(text::split(meminfo, '\n'), "MemAvailable:"@) == Some(available),
        total > 0,
    ensures
        usage(meminfo) matches Some((in_use, of)) && of == total && in_use <= total && (available
            <= total ==> in_use + available == total) && (available > total ==> in_use == 0),
{
}

/// Nothing is told where the total or what is available is not, or where there is no memory at all.
pub proof fn law_no_use_without_a_total(meminfo: Seq<char>)
    ensures
        usage(meminfo) is Some <==> {
            &&& field(text::split(meminfo, '\n'), "MemTotal:"@) matches Some(total)
            &&& field(text::split(meminfo, '\n'), "MemAvailable:"@) is Some
            &&& total > 0
        },
{
}

/// A field is read off the last line that begins with its key: the number is the first word behind the
/// key.
pub proof fn law_field_is_read_off_its_line(
    before: Seq<Seq<char>>,
    key: Seq<char>,
    value: Seq<char>,
    n: nat,
    after: Seq<Seq<char>>,
)
    requires
        text::words(value).len() > 0,
        text::words(value)[0] == text::decimal(n),
        n <= u64::MAX,
        forall|i: int| 0 <= i < after.len() ==> !text::starts_with(#[trigger] after[i], key),
    ensures
        field(before.push(key + value) + after, key) == Some(n),
    decreases after.len(),
{
    let lines = before.push(key + value) + after;
    if after.len() == 0 {
        assert(lines.last() == key + value);
        assert((key + value).take(key.len() as int) =~= key);
        assert((key + value).skip(key.len() as int) =~= value);
        text::law_decimal_is_read_back(n, u64::MAX as nat);
    } else {
        assert(lines.last() == after[after.len() - 1]);
        assert(lines.drop_last() =~= before.push(key + value) + after.drop_last());
        assert forall|i: int| 0 <= i < after.drop_last().len() implies !text::starts_with(
            #[trigger] after.drop_last()[i],
            key,
        ) by {
            assert(after.drop_last()[i] == after[i]);
        }
        law_field_is_read_off_its_line(before, key, value, n, after.drop_last());
    }
}

} // verus!
