//! Text as sequences of characters: the small vocabulary of trimming, splitting and number
//! rendering that the rest of the crate states its string results in.

use vstd::prelude::*;

verus! {

/// `String::push` appends one character to the end of the string.
pub assume_specification[ String::push ](s: &mut String, c: char)
    ensures
        final(s)@ == old(s)@.push(c),
;

// ---------------------------------------------------------------------------
// Characters and strings
// ---------------------------------------------------------------------------

/// The characters of a string, one by one.
pub fn chars_of(s: &str) -> (out: Vec<char>)
    ensures
        out@ == s@,
{
    let mut out: Vec<char> = Vec::new();
    for c in it: s.chars()
        invariant
            out@ == it.seq().take(it.index()),
            it.seq() == s@,
    {
        out.push(c);
    }
    proof {
        assert(s@.take(s@.len() as int) =~= s@);
    }
    out
}

/// The string made of `chars[from..to]`.
pub fn string_of(chars: &Vec<char>, from: usize, to: usize) -> (out: String)
    requires
        from <= to <= chars@.len(),
    ensures
        out@ == chars@.subrange(from as int, to as int),
{
    let mut out: String = String::new();
    let mut i: usize = from;
    while i < to
        invariant
            from <= i <= to <= chars@.len(),
            out@ == chars@.subrange(from as int, i as int),
        decreases to - i,
    {
        out.push(chars[i]);
        i = i + 1;
    }
    out
}

/// Whether two string slices hold the same characters.
pub fn same_text(a: &str, b: &str) -> (same: bool)
    ensures
        same == (a@ == b@),
{
    a.to_owned() == b.to_owned()
}

/// Whether `s` begins with `prefix`.
pub open spec fn starts_with(s: Seq<char>, prefix: Seq<char>) -> bool {
    prefix.len() <= s.len() && s.take(prefix.len() as int) == prefix
}

/// Whether `s` ends with `suffix`.
pub open spec fn ends_with(s: Seq<char>, suffix: Seq<char>) -> bool {
    suffix.len() <= s.len() && s.skip(s.len() - suffix.len()) == suffix
}

/// Whether `part` occurs in `s` as a contiguous run.
pub open spec fn has_part(s: Seq<char>, part: Seq<char>) -> bool {
    exists|i: int| #[trigger] part_at(s, part, i)
}

/// Whether `part` stands in `s` at position `i`.
pub open spec fn part_at(s: Seq<char>, part: Seq<char>, i: int) -> bool {
    0 <= i && i + part.len() <= s.len() && s.subrange(i, i + part.len()) == part
}

/// Whether `part` stands in `chars` at position `at`.
pub fn part_stands_at(chars: &Vec<char>, part: &Vec<char>, at: usize) -> (found: bool)
    ensures
        found == part_at(chars@, part@, at as int),
{
    if part.len() > chars.len() || at > chars.len() - part.len() {
        return false;
    }
    let len: usize = chars.len();
    let mut i: usize = 0;
    while i < part.len()
        invariant
            i <= part@.len(),
            len == chars@.len(),
            at + part@.len() <= len,
            forall|j: int| 0 <= j < i ==> chars@[at + j] == part@[j],
        decreases part@.len() - i,
    {
        if chars[at + i] != part[i] {
            proof {
                assert(chars@.subrange(at as int, at + part@.len())[i as int] != part@[i as int]);
            }
            return false;
        }
        i = i + 1;
    }
    proof {
        assert(chars@.subrange(at as int, at + part@.len()) =~= part@);
    }
    true
}

/// Whether `s` begins with `prefix`.
pub fn begins_with(s: &str, prefix: &str) -> (found: bool)
    ensures
        found == starts_with(s@, prefix@),
{
    let chars = chars_of(s);
    let part = chars_of(prefix);
    let found: bool = part_stands_at(&chars, &part, 0);
    proof {
        if prefix@.len() <= s@.len() {
            assert(s@.subrange(0, prefix@.len() as int) =~= s@.take(prefix@.len() as int));
        }
    }
    found
}

/// Whether `s` ends with `suffix`.
pub fn finishes_with(s: &str, suffix: &str) -> (found: bool)
    ensures
        found == ends_with(s@, suffix@),
{
    let chars = chars_of(s);
    let part = chars_of(suffix);
    if part.len() > chars.len() {
        return false;
    }
    let at: usize = chars.len() - part.len();
    proof {
        assert(s@.subrange(at as int, s@.len() as int) =~= s@.skip(at as int));
    }
    part_stands_at(&chars, &part, at)
}

/// Whether `part` occurs somewhere in `s`.
pub fn contains_text(s: &str, part: &str) -> (found: bool)
    ensures
        found == has_part(s@, part@),
{
    let chars = chars_of(s);
    let part_chars = chars_of(part);
    let mut i: usize = 0;
    while i <= chars.len()
        invariant
            i <= chars@.len() + 1,
            chars@ == s@,
            part_chars@ == part@,
            forall|j: int| 0 <= j < i ==> !#[trigger] part_at(s@, part@, j),
        decreases chars@.len() + 1 - i,
    {
        if part_stands_at(&chars, &part_chars, i) {
            return true;
        }
        if i == chars.len() {
            return false;
        }
        i = i + 1;
    }
    false
}

/// Whether the character `c` occurs in `s`.
pub fn contains_char(s: &str, c: char) -> (found: bool)
    ensures
        found == s@.contains(c),
{
    let chars = chars_of(s);
    let mut i: usize = 0;
    while i < chars.len()
        invariant
            i <= chars@.len(),
            chars@ == s@,
            forall|j: int| 0 <= j < i ==> chars@[j] != c,
        decreases chars@.len() - i,
    {
        if chars[i] == c {
            proof {
                assert(s@[i as int] == c);
            }
            return true;
        }
        i = i + 1;
    }
    false
}

// ---------------------------------------------------------------------------
// Trimming
// ---------------------------------------------------------------------------

/// Whether `c` has the Unicode `White_Space` property.
pub open spec fn is_space(c: char) -> bool {
    ||| 0x9 <= c as u32 <= 0xd
    ||| c as u32 == 0x20
    ||| c as u32 == 0x85
    ||| c as u32 == 0xa0
    ||| c as u32 == 0x1680
    ||| 0x2000 <= c as u32 <= 0x200a
    ||| c as u32 == 0x2028
    ||| c as u32 == 0x2029
    ||| c as u32 == 0x202f
    ||| c as u32 == 0x205f
    ||| c as u32 == 0x3000
}

/// Whether `c` has the Unicode `White_Space` property.
pub fn is_whitespace(c: char) -> (space: bool)
    ensures
        space == is_space(c),
{
    let n: u32 = c as u32;
    (0x9 <= n && n <= 0xd) || n == 0x20 || n == 0x85 || n == 0xa0 || n == 0x1680
        || (0x2000 <= n && n <= 0x200a) || n == 0x2028 || n == 0x2029 || n == 0x202f || n == 0x205f
        || n == 0x3000
}

/// `s` without its leading whitespace.
pub open spec fn trim_start(s: Seq<char>) -> Seq<char>
    decreases s.len(),
{
    if s.len() > 0 && is_space(s[0]) {
        trim_start(s.skip(1))
    } else {
        s
    }
}

/// `s` without its trailing whitespace.
pub open spec fn trim_end(s: Seq<char>) -> Seq<char>
    decreases s.len(),
{
    if s.len() > 0 && is_space(s.last()) {
        trim_end(s.drop_last())
    } else {
        s
    }
}

/// `s` without whitespace at either end.
pub open spec fn trim(s: Seq<char>) -> Seq<char> {
    trim_end(trim_start(s))
}

/// Where the text of `chars` begins once leading whitespace is skipped.
fn start_of_text(chars: &Vec<char>) -> (from: usize)
    ensures
        from <= chars@.len(),
        chars@.skip(from as int) == trim_start(chars@),
{
    let mut from: usize = 0;
    proof {
        assert(chars@.skip(0) =~= chars@);
    }
    while from < chars.len() && is_whitespace(chars[from])
        invariant
            from <= chars@.len(),
            trim_start(chars@.skip(from as int)) == trim_start(chars@),
        decreases chars@.len() - from,
    {
        proof {
            assert(chars@.skip(from as int).skip(1) =~= chars@.skip(from + 1));
        }
        from = from + 1;
    }
    from
}

/// Where the text of `chars[from..]` ends once trailing whitespace is dropped.
fn end_of_text(chars: &Vec<char>, from: usize) -> (to: usize)
    requires
        from <= chars@.len(),
    ensures
        from <= to <= chars@.len(),
        chars@.subrange(from as int, to as int) == trim_end(chars@.skip(from as int)),
{
    let mut to: usize = chars.len();
    proof {
        assert(chars@.subrange(from as int, to as int) =~= chars@.skip(from as int));
    }
    while to > from && is_whitespace(chars[to - 1])
        invariant
            from <= to <= chars@.len(),
            trim_end(chars@.subrange(from as int, to as int)) == trim_end(chars@.skip(from as int)),
        decreases to - from,
    {
        proof {
            assert(chars@.subrange(from as int, to as int).drop_last() =~= chars@.subrange(
                from as int,
                to - 1,
            ));
        }
        to = to - 1;
    }
    to
}

/// `s` without whitespace at either end.
pub fn trimmed(s: &str) -> (out: String)
    ensures
        out@ == trim(s@),
{
    let chars = chars_of(s);
    let from: usize = start_of_text(&chars);
    let to: usize = end_of_text(&chars, from);
    string_of(&chars, from, to)
}

/// `s` without its trailing whitespace.
pub fn trimmed_end(s: &str) -> (out: String)
    ensures
        out@ == trim_end(s@),
{
    let chars = chars_of(s);
    let to: usize = end_of_text(&chars, 0);
    proof {
        assert(s@.skip(0) =~= s@);
    }
    string_of(&chars, 0, to)
}

// ---------------------------------------------------------------------------
// Splitting
// ---------------------------------------------------------------------------

/// The views of the strings in a sequence.
pub open spec fn views(parts: Seq<String>) -> Seq<Seq<char>> {
    parts.map_values(|p: String| p@)
}

/// The views of the string literals in a sequence.
pub open spec fn literal_views(parts: Seq<&'static str>) -> Seq<Seq<char>> {
    parts.map_values(|p: &'static str| p@)
}

/// The parts of `s` between separators: one more part than there are separators, empty parts
/// kept.
pub open spec fn split_where(s: Seq<char>, is_sep: spec_fn(char) -> bool) -> Seq<Seq<char>>
    decreases s.len(),
{
    if s.len() == 0 {
        seq![Seq::<char>::empty()]
    } else {
        let before = split_where(s.drop_last(), is_sep);
        if is_sep(s.last()) {
            before.push(Seq::empty())
        } else {
            before.drop_last().push(before.last().push(s.last()))
        }
    }
}

/// The separator that is the one character `sep`.
pub open spec fn just(sep: char) -> spec_fn(char) -> bool {
    |c: char| c == sep
}

/// The separator that is any whitespace.
pub open spec fn any_space() -> spec_fn(char) -> bool {
    |c: char| is_space(c)
}

/// The parts of `s` between occurrences of `sep`.
pub open spec fn split(s: Seq<char>, sep: char) -> Seq<Seq<char>> {
    split_where(s, just(sep))
}

/// `parts` without the empty ones.
pub open spec fn nonempty(parts: Seq<Seq<char>>) -> Seq<Seq<char>>
    decreases parts.len(),
{
    if parts.len() == 0 {
        Seq::empty()
    } else if parts.last().len() == 0 {
        nonempty(parts.drop_last())
    } else {
        nonempty(parts.drop_last()).push(parts.last())
    }
}

/// The words of `s`: its parts between runs of whitespace.
pub open spec fn words(s: Seq<char>) -> Seq<Seq<char>> {
    nonempty(split_where(s, any_space()))
}

/// A split has at least one part.
pub proof fn lemma_split_where_nonempty(s: Seq<char>, is_sep: spec_fn(char) -> bool)
    ensures
        split_where(s, is_sep).len() >= 1,
    decreases s.len(),
{
    if s.len() > 0 {
        lemma_split_where_nonempty(s.drop_last(), is_sep);
    }
}

/// The parts of `s` between occurrences of `sep`, empty parts kept.
pub fn split_on(s: &str, sep: char) -> (parts: Vec<String>)
    ensures
        views(parts@) == split(s@, sep),
        parts@.len() >= 1,
{
    let chars = chars_of(s);
    let ghost is_sep = just(sep);
    let mut parts: Vec<String> = Vec::new();
    let mut current: String = String::new();
    let mut i: usize = 0;
    proof {
        assert(s@.take(0) =~= Seq::<char>::empty());
        assert(views(parts@).push(current@) =~= split_where(s@.take(0), is_sep));
    }
    while i < chars.len()
        invariant
            i <= chars@.len(),
            chars@ == s@,
            is_sep == just(sep),
            views(parts@).push(current@) == split_where(s@.take(i as int), is_sep),
        decreases chars@.len() - i,
    {
        proof {
            assert(s@.take(i + 1).drop_last() =~= s@.take(i as int));
            assert(s@.take(i + 1).last() == s@[i as int]);
        }
        let ghost before = views(parts@);
        let ghost part = current@;
        proof {
            assert(before.push(part).drop_last() =~= before);
        }
        if chars[i] == sep {
            parts.push(current);
            current = String::new();
            proof {
                assert(views(parts@) =~= before.push(part));
            }
        } else {
            current.push(chars[i]);
        }
        i = i + 1;
    }
    let ghost before = views(parts@);
    let ghost part = current@;
    parts.push(current);
    proof {
        assert(s@.take(s@.len() as int) =~= s@);
        assert(views(parts@) =~= before.push(part));
    }
    parts
}

/// The words of `s`: its parts between runs of whitespace.
pub fn words_of(s: &str) -> (out: Vec<String>)
    ensures
        views(out@) == words(s@),
{
    let chars = chars_of(s);
    let ghost is_sep = any_space();
    let mut out: Vec<String> = Vec::new();
    let mut current: String = String::new();
    let mut empty: bool = true;
    let mut i: usize = 0;
    proof {
        assert(s@.take(0) =~= Seq::<char>::empty());
        let first = split_where(s@.take(0), is_sep);
        assert(first =~= seq![Seq::<char>::empty()]);
        assert(first.drop_last() =~= Seq::<Seq<char>>::empty());
        assert(views(out@) =~= nonempty(first.drop_last()));
    }
    while i < chars.len()
        invariant
            i <= chars@.len(),
            chars@ == s@,
            is_sep == any_space(),
            empty == (current@.len() == 0),
            views(out@) == nonempty(split_where(s@.take(i as int), is_sep).drop_last()),
            current@ == split_where(s@.take(i as int), is_sep).last(),
        decreases chars@.len() - i,
    {
        let ghost done = views(out@);
        let ghost part = current@;
        let ghost before = split_where(s@.take(i as int), is_sep);
        proof {
            assert(s@.take(i + 1).drop_last() =~= s@.take(i as int));
            assert(s@.take(i + 1).last() == s@[i as int]);
            lemma_split_where_nonempty(s@.take(i as int), is_sep);
        }
        if is_whitespace(chars[i]) {
            proof {
                assert(before.push(Seq::<char>::empty()).drop_last() =~= before);
            }
            if !empty {
                out.push(current);
                current = String::new();
                empty = true;
                proof {
                    assert(views(out@) =~= done.push(part));
                }
            } else {
                proof {
                    assert(current@ =~= Seq::<char>::empty());
                }
            }
        } else {
            current.push(chars[i]);
            empty = false;
            proof {
                assert(before.drop_last().push(part.push(s@[i as int])).drop_last()
                    =~= before.drop_last());
            }
        }
        i = i + 1;
    }
    proof {
        assert(s@.take(s@.len() as int) =~= s@);
        lemma_split_where_nonempty(s@, is_sep);
    }
    let ghost done = views(out@);
    let ghost part = current@;
    if !empty {
        out.push(current);
        proof {
            assert(views(out@) =~= done.push(part));
        }
    }
    out
}

/// Where `sep` first occurs in `s`, or the length of `s` where it does not.
pub open spec fn first_index(s: Seq<char>, sep: char) -> int
    decreases s.len(),
{
    if s.len() == 0 || s[0] == sep {
        0
    } else {
        1 + first_index(s.skip(1), sep)
    }
}

/// The two sides of the first `sep` in `s`.
pub open spec fn split_once(s: Seq<char>, sep: char) -> Option<(Seq<char>, Seq<char>)> {
    if s.contains(sep) {
        let i = first_index(s, sep);
        Some((s.take(i), s.skip(i + 1)))
    } else {
        None
    }
}

/// `first_index` is pinned down by what it finds and what it passes over.
pub proof fn lemma_first_index(s: Seq<char>, sep: char, i: int)
    requires
        0 <= i <= s.len(),
        forall|j: int| 0 <= j < i ==> s[j] != sep,
        i < s.len() ==> s[i] == sep,
    ensures
        first_index(s, sep) == i,
    decreases s.len(),
{
    if i > 0 {
        assert(s[0] != sep);
        assert forall|j: int| 0 <= j < i - 1 implies s.skip(1)[j] != sep by {
            assert(s[j + 1] != sep);
        }
        lemma_first_index(s.skip(1), sep, i - 1);
    }
}

/// The two sides of the first `sep` in `s`, or `None` where there is none.
pub fn split_at_first(s: &str, sep: char) -> (out: Option<(String, String)>)
    ensures
        match out {
            Some((left, right)) => split_once(s@, sep) == Some((left@, right@)),
            None => split_once(s@, sep) is None,
        },
{
    let chars = chars_of(s);
    let mut i: usize = 0;
    while i < chars.len()
        invariant
            i <= chars@.len(),
            chars@ == s@,
            forall|j: int| 0 <= j < i ==> s@[j] != sep,
        decreases chars@.len() - i,
    {
        if chars[i] == sep {
            proof {
                assert(s@.contains(sep)) by {
                    assert(s@[i as int] == sep);
                }
                lemma_first_index(s@, sep, i as int);
                assert(s@.subrange(0, i as int) =~= s@.take(i as int));
                assert(s@.subrange(i + 1, s@.len() as int) =~= s@.skip(i + 1));
            }
            return Some((string_of(&chars, 0, i), string_of(&chars, i + 1, chars.len())));
        }
        i = i + 1;
    }
    None
}

// ---------------------------------------------------------------------------
// Numbers
// ---------------------------------------------------------------------------

/// The character that stands for the digit `d`, in lower case.
pub open spec fn digit_char(d: nat) -> char {
    if d < 10 {
        (48 + d) as char
    } else {
        (87 + d) as char
    }
}

/// `n` in base ten, without leading zeros.
pub open spec fn decimal(n: nat) -> Seq<char>
    decreases n,
{
    if n < 10 {
        seq![digit_char(n)]
    } else {
        decimal(n / 10).push(digit_char(n % 10))
    }
}

/// The last `width` digits of `n` in base `radix`, with leading zeros.
pub open spec fn padded(n: nat, radix: nat, width: nat) -> Seq<char>
    decreases width,
{
    if width == 0 {
        Seq::empty()
    } else {
        padded(n / radix, radix, (width - 1) as nat).push(digit_char(n % radix))
    }
}

/// `radix` to the power of `width`.
pub open spec fn power(radix: nat, width: nat) -> nat
    decreases width,
{
    if width == 0 {
        1
    } else {
        radix * power(radix, (width - 1) as nat)
    }
}

/// A power of a positive number is positive.
pub proof fn lemma_power_positive(radix: nat, width: nat)
    requires
        radix > 0,
    ensures
        power(radix, width) > 0,
    decreases width,
{
    if width > 0 {
        lemma_power_positive(radix, (width - 1) as nat);
        let p = power(radix, (width - 1) as nat);
        assert(radix * p > 0) by (nonlinear_arith)
            requires
                radix > 0,
                p > 0,
        ;
    }
}

/// There are as many digits as asked for.
pub proof fn lemma_padded_len(n: nat, radix: nat, width: nat)
    requires
        radix > 0,
    ensures
        padded(n, radix, width).len() == width,
    decreases width,
{
    if width > 0 {
        lemma_padded_len(n / radix, radix, (width - 1) as nat);
    }
}

/// Digits determine the number that they are the last digits of, up to what lies above them.
pub proof fn lemma_padded_injective(m: nat, n: nat, radix: nat, width: nat)
    requires
        2 <= radix <= 16,
        padded(m, radix, width) == padded(n, radix, width),
    ensures
        m % power(radix, width) == n % power(radix, width),
    decreases width,
{
    if width > 0 {
        let w = (width - 1) as nat;
        let (pm, pn) = (padded(m / radix, radix, w), padded(n / radix, radix, w));
        assert(padded(m, radix, width) == pm.push(digit_char(m % radix)));
        assert(padded(n, radix, width) == pn.push(digit_char(n % radix)));
        assert(pm.push(digit_char(m % radix)).drop_last() =~= pm);
        assert(pn.push(digit_char(n % radix)).drop_last() =~= pn);
        assert(pm.push(digit_char(m % radix)).last() == digit_char(m % radix));
        assert(pn.push(digit_char(n % radix)).last() == digit_char(n % radix));
        lemma_padded_injective(m / radix, n / radix, radix, w);
        lemma_power_positive(radix, w);
        vstd::arithmetic::div_mod::lemma_mod_breakdown(
            m as int,
            radix as int,
            power(radix, w) as int,
        );
        vstd::arithmetic::div_mod::lemma_mod_breakdown(
            n as int,
            radix as int,
            power(radix, w) as int,
        );
        assert(m % radix == n % radix);
    }
}

/// The character that stands for the digit `d`, in lower case.
fn digit_to_char(d: u8) -> (c: char)
    requires
        d < 16,
    ensures
        c == digit_char(d as nat),
{
    if d < 10 {
        (48u8 + d) as char
    } else {
        (87u8 + d) as char
    }
}

/// `n` in base ten, without leading zeros.
pub fn decimal_of(n: u64) -> (out: String)
    ensures
        out@ == decimal(n as nat),
    decreases n,
{
    if n < 10 {
        let mut out: String = String::new();
        out.push(digit_to_char(n as u8));
        proof {
            assert(out@ =~= seq![digit_char(n as nat)]);
        }
        out
    } else {
        let mut out = decimal_of(n / 10);
        out.push(digit_to_char((n % 10) as u8));
        out
    }
}

/// The last `width` digits of `n` in base `radix`, with leading zeros.
pub fn padded_of(n: u64, radix: u64, width: u64) -> (out: String)
    requires
        2 <= radix <= 16,
    ensures
        out@ == padded(n as nat, radix as nat, width as nat),
    decreases width,
{
    if width == 0 {
        String::new()
    } else {
        let mut out = padded_of(n / radix, radix, width - 1);
        out.push(digit_to_char((n % radix) as u8));
        out
    }
}

/// The digit that `c` stands for, in either case; for a character that is no digit, a value past
/// every radix.
pub open spec fn digit_value(c: char) -> nat {
    if 48 <= c as u32 <= 57 {
        (c as u32 - 48) as nat
    } else if 97 <= c as u32 <= 122 {
        (c as u32 - 87) as nat
    } else if 65 <= c as u32 <= 90 {
        (c as u32 - 55) as nat
    } else {
        99
    }
}

/// The number that the digits `s` write in base `radix`, the most significant digit first.
pub open spec fn digits_value(s: Seq<char>, radix: nat) -> nat
    decreases s.len(),
{
    if s.len() == 0 {
        0
    } else {
        digits_value(s.drop_last(), radix) * radix + digit_value(s.last())
    }
}

/// `s` without a leading plus sign.
pub open spec fn unsigned_digits(s: Seq<char>) -> Seq<char> {
    if s.len() > 0 && s[0] == '+' {
        s.skip(1)
    } else {
        s
    }
}

/// The number that `s` writes: an optional plus sign, then at least one digit of base `radix`,
/// with a value of at most `max`.
pub open spec fn parse_unsigned(s: Seq<char>, radix: nat, max: nat) -> Option<nat> {
    let digits = unsigned_digits(s);
    if digits.len() > 0 && (forall|i: int| 0 <= i < digits.len() ==> digit_value(#[trigger] digits[i]) < radix)
        && digits_value(digits, radix) <= max {
        Some(digits_value(digits, radix))
    } else {
        None
    }
}

/// A number is at least what any prefix of its digits writes.
pub proof fn lemma_digits_value_grows(s: Seq<char>, radix: nat, i: int)
    requires
        0 <= i <= s.len(),
        radix >= 1,
    ensures
        digits_value(s.take(i), radix) <= digits_value(s, radix),
    decreases s.len() - i,
{
    if i == s.len() {
        assert(s.take(i) =~= s);
    } else {
        lemma_digits_value_grows(s, radix, i + 1);
        assert(s.take(i + 1).drop_last() =~= s.take(i));
        let v = digits_value(s.take(i), radix);
        assert(v * radix >= v) by (nonlinear_arith)
            requires
                radix >= 1,
        ;
    }
}

/// The digit that `c` stands for.
fn digit_of(c: char) -> (d: u8)
    ensures
        d == digit_value(c),
{
    let n: u32 = c as u32;
    if 48 <= n && n <= 57 {
        (n - 48) as u8
    } else if 97 <= n && n <= 122 {
        (n - 87) as u8
    } else if 65 <= n && n <= 90 {
        (n - 55) as u8
    } else {
        99
    }
}

/// Reads an unsigned number of base `radix` that is at most `max`.
pub fn parse_number(s: &str, radix: u8, max: u64) -> (out: Option<u64>)
    requires
        2 <= radix <= 36,
    ensures
        match out {
            Some(n) => parse_unsigned(s@, radix as nat, max as nat) == Some(n as nat),
            None => parse_unsigned(s@, radix as nat, max as nat) is None,
        },
{
    let chars = chars_of(s);
    let from: usize = if chars.len() > 0 && chars[0] == '+' {
        1
    } else {
        0
    };
    let ghost digits = unsigned_digits(s@);
    proof {
        assert(digits =~= s@.skip(from as int));
    }
    if chars.len() == from {
        return None;
    }
    let mut value: u128 = 0;
    let mut i: usize = from;
    proof {
        assert(digits.take(0) =~= Seq::<char>::empty());
    }
    while i < chars.len()
        invariant
            from <= i <= chars@.len(),
            chars@ == s@,
            digits == unsigned_digits(s@),
            digits == s@.skip(from as int),
            2 <= radix <= 36,
            value <= max,
            value == digits_value(digits.take(i - from), radix as nat),
            forall|j: int| 0 <= j < i - from ==> digit_value(#[trigger] digits[j]) < radix,
        decreases chars@.len() - i,
    {
        let d: u8 = digit_of(chars[i]);
        proof {
            assert(digits[i - from] == s@[i as int]);
        }
        if d >= radix {
            return None;
        }
        proof {
            let k = i - from;
            assert(digits.take(k + 1).drop_last() =~= digits.take(k));
            assert(digits.take(k + 1).last() == s@[i as int]);
            lemma_digits_value_grows(digits, radix as nat, k + 1);
            assert(value * radix <= 0xffff_ffff_ffff_ffff * 36) by (nonlinear_arith)
                requires
                    0 <= value <= 0xffff_ffff_ffff_ffff,
                    0 <= radix <= 36,
            ;
        }
        value = value * (radix as u128) + d as u128;
        if value > max as u128 {
            return None;
        }
        i = i + 1;
    }
    proof {
        assert(digits.take(digits.len() as int) =~= digits);
    }
    Some(value as u64)
}

// ---------------------------------------------------------------------------
// Order
// ---------------------------------------------------------------------------

/// Whether `a` comes before `b` in the order of their characters' code points, a prefix before
/// what extends it. This is also the order of their UTF-8 encodings.
pub open spec fn comes_before(a: Seq<char>, b: Seq<char>) -> bool
    decreases a.len(),
{
    if b.len() == 0 {
        false
    } else if a.len() == 0 {
        true
    } else if a[0] != b[0] {
        a[0] < b[0]
    } else {
        comes_before(a.skip(1), b.skip(1))
    }
}

/// No text comes before itself, and of two different texts exactly one comes before the other.
pub proof fn lemma_order_total(a: Seq<char>, b: Seq<char>)
    ensures
        !comes_before(a, a),
        a == b || comes_before(a, b) || comes_before(b, a),
    decreases a.len(),
{
    if a.len() > 0 {
        lemma_order_total(a.skip(1), a.skip(1));
    }
    if a.len() > 0 && b.len() > 0 && a[0] == b[0] {
        lemma_order_total(a.skip(1), b.skip(1));
        if a.skip(1) == b.skip(1) {
            assert(a =~= seq![a[0]] + a.skip(1));
            assert(b =~= seq![b[0]] + b.skip(1));
        }
    }
    if a.len() == 0 && b.len() == 0 {
        assert(a =~= b);
    }
}

/// The order of texts is transitive.
pub proof fn lemma_order_transitive(a: Seq<char>, b: Seq<char>, c: Seq<char>)
    requires
        comes_before(a, b),
        comes_before(b, c),
    ensures
        comes_before(a, c),
    decreases a.len(),
{
    if a.len() > 0 && a[0] == b[0] && b[0] == c[0] {
        lemma_order_transitive(a.skip(1), b.skip(1), c.skip(1));
    }
}

/// Whether `a` comes before `b`.
pub fn sorts_before(a: &str, b: &str) -> (yes: bool)
    ensures
        yes == comes_before(a@, b@),
{
    let left = chars_of(a);
    let right = chars_of(b);
    let mut i: usize = 0;
    proof {
        assert(a@.skip(0) =~= a@);
        assert(b@.skip(0) =~= b@);
    }
    while i < left.len() && i < right.len() && left[i] == right[i]
        invariant
            i <= left@.len(),
            i <= right@.len(),
            left@ == a@,
            right@ == b@,
            comes_before(a@.skip(i as int), b@.skip(i as int)) == comes_before(a@, b@),
        decreases left@.len() - i,
    {
        proof {
            assert(a@.skip(i as int).skip(1) =~= a@.skip(i + 1));
            assert(b@.skip(i as int).skip(1) =~= b@.skip(i + 1));
        }
        i = i + 1;
    }
    if i >= right.len() {
        false
    } else if i >= left.len() {
        true
    } else {
        left[i] < right[i]
    }
}

/// A number is determined by its decimal digits.
pub proof fn lemma_decimal_injective(m: nat, n: nat)
    requires
        decimal(m) == decimal(n),
    ensures
        m == n,
    decreases m,
{
    let (dm, dn) = (decimal(m), decimal(n));
    lemma_decimal_nonempty(m / 10);
    lemma_decimal_nonempty(n / 10);
    assert(dm.last() == dn.last());
    if m >= 10 && n >= 10 {
        assert(dm.drop_last() =~= decimal(m / 10));
        assert(dn.drop_last() =~= decimal(n / 10));
        lemma_decimal_injective(m / 10, n / 10);
    }
}

/// A number has digits.
proof fn lemma_decimal_nonempty(n: nat)
    ensures
        decimal(n).len() >= 1,
    decreases n,
{
    if n >= 10 {
        lemma_decimal_nonempty(n / 10);
    }
}

/// Splitting undoes joining: what stands before a separator and what stands after it split apart.
pub proof fn law_split_at_a_separator(
    before: Seq<char>,
    sep: char,
    after: Seq<char>,
    is_sep: spec_fn(char) -> bool,
)
    requires
        is_sep(sep),
    ensures
        split_where(before.push(sep) + after, is_sep) == split_where(before, is_sep) + split_where(
            after,
            is_sep,
        ),
    decreases after.len(),
{
    let whole = before.push(sep) + after;
    if after.len() == 0 {
        assert(whole =~= before.push(sep));
        assert(whole.drop_last() =~= before);
        assert(split_where(after, is_sep) =~= seq![Seq::<char>::empty()]);
        assert(split_where(before, is_sep).push(Seq::empty()) =~= split_where(before, is_sep)
            + seq![Seq::<char>::empty()]);
    } else {
        let shorter = after.drop_last();
        law_split_at_a_separator(before, sep, shorter, is_sep);
        lemma_split_where_nonempty(shorter, is_sep);
        assert(whole.drop_last() =~= before.push(sep) + shorter);
        let (left, right) = (split_where(before, is_sep), split_where(shorter, is_sep));
        if is_sep(after.last()) {
            assert((left + right).push(Seq::empty()) =~= left + right.push(Seq::empty()));
        } else {
            let grown = right.last().push(after.last());
            assert((left + right).drop_last().push(grown) =~= left + right.drop_last().push(grown));
        }
    }
}

/// A text without a separator is one part.
pub proof fn law_split_without_a_separator(s: Seq<char>, is_sep: spec_fn(char) -> bool)
    requires
        forall|i: int| 0 <= i < s.len() ==> !is_sep(#[trigger] s[i]),
    ensures
        split_where(s, is_sep) == seq![s],
    decreases s.len(),
{
    if s.len() > 0 {
        let shorter = s.drop_last();
        assert forall|i: int| 0 <= i < shorter.len() implies !is_sep(#[trigger] shorter[i]) by {
            assert(shorter[i] == s[i]);
        }
        law_split_without_a_separator(shorter, is_sep);
        assert(!is_sep(s[s.len() - 1]));
        assert(split_where(s, is_sep) =~= seq![s]) by {
            assert(shorter.push(s.last()) =~= s);
        }
    } else {
        assert(s =~= Seq::empty());
    }
}

/// Whether `s` is made of decimal digits only.
pub open spec fn all_digits(s: Seq<char>) -> bool {
    forall|i: int| 0 <= i < s.len() ==> '0' <= #[trigger] s[i] <= '9'
}

/// A number in base ten is made of decimal digits, and has one at least.
pub proof fn law_decimal_is_digits(n: nat)
    ensures
        all_digits(decimal(n)),
        decimal(n).len() > 0,
    decreases n,
{
    if n >= 10 {
        law_decimal_is_digits(n / 10);
    }
}

/// Reading undoes writing: the digits of a number have its value.
pub proof fn law_decimal_round_trip(n: nat)
    ensures
        digits_value(decimal(n), 10) == n,
    decreases n,
{
    let s = decimal(n);
    law_decimal_is_digits(n);
    assert(s.last() == digit_char(n % 10));
    assert(digit_value(s.last()) == n % 10);
    if n >= 10 {
        law_decimal_round_trip(n / 10);
        assert(s.drop_last() =~= decimal(n / 10));
    } else {
        assert(s.drop_last() =~= Seq::empty());
        assert(digits_value(s.drop_last(), 10) == 0);
    }
}

// ---------------------------------------------------------------------------
// What reading and writing text are for
// ---------------------------------------------------------------------------

/// A text has every part that it is put together from, at its beginning and at its end too.
pub proof fn law_parts_are_found(before: Seq<char>, part: Seq<char>, after: Seq<char>)
    ensures
        has_part(before + part + after, part),
        starts_with(part + after, part),
        ends_with(before + part, part),
{
    let whole = before + part + after;
    let at = before.len() as int;
    assert(whole.subrange(at, at + part.len()) =~= part);
    assert(part_at(whole, part, at));
    assert((part + after).take(part.len() as int) =~= part);
    assert((before + part).skip(at) =~= part);
}

/// A text that has a part is put together from it.
pub proof fn law_found_parts_are_there(s: Seq<char>, part: Seq<char>)
    ensures
        has_part(s, part) ==> exists|i: int|
            0 <= i && i + part.len() <= s.len() && #[trigger] s.take(i) + part + s.skip(
                i + part.len(),
            ) == s,
        starts_with(s, part) ==> s == part + s.skip(part.len() as int),
        ends_with(s, part) ==> s == s.take(s.len() - part.len()) + part,
{
    if has_part(s, part) {
        let i = choose|i: int| #[trigger] part_at(s, part, i);
        assert(s.take(i) + part + s.skip(i + part.len()) =~= s);
    }
    if starts_with(s, part) {
        assert(s =~= part + s.skip(part.len() as int));
    }
    if ends_with(s, part) {
        assert(s =~= s.take(s.len() - part.len()) + part);
    }
}

/// What trimming leaves begins and ends with no white space, and what it takes away at the end is
/// nothing else.
pub proof fn law_trim_end_takes_white_space(s: Seq<char>)
    ensures
        trim_end(s).len() <= s.len(),
        trim_end(s) == s.take(trim_end(s).len() as int),
        trim_end(s).len() > 0 ==> !is_space(trim_end(s).last()),
        forall|i: int| trim_end(s).len() <= i < s.len() ==> is_space(#[trigger] s[i]),
    decreases s.len(),
{
    if s.len() > 0 && is_space(s.last()) {
        law_trim_end_takes_white_space(s.drop_last());
        let left = trim_end(s);
        assert(s.drop_last().take(left.len() as int) =~= s.take(left.len() as int));
        assert forall|i: int| left.len() <= i < s.len() implies is_space(#[trigger] s[i]) by {
            if i < s.len() - 1 {
                assert(s.drop_last()[i] == s[i]);
            }
        }
    } else {
        assert(s.take(s.len() as int) =~= s);
    }
}

/// What trimming takes away at the beginning is white space and nothing else.
pub proof fn law_trim_start_takes_white_space(s: Seq<char>)
    ensures
        trim_start(s).len() <= s.len(),
        trim_start(s) == s.skip(s.len() - trim_start(s).len()),
        trim_start(s).len() > 0 ==> !is_space(trim_start(s)[0]),
        forall|i: int| 0 <= i < s.len() - trim_start(s).len() ==> is_space(#[trigger] s[i]),
    decreases s.len(),
{
    if s.len() > 0 && is_space(s[0]) {
        let rest = s.skip(1);
        law_trim_start_takes_white_space(rest);
        let left = trim_start(s);
        assert(rest.skip(rest.len() - left.len()) =~= s.skip(s.len() - left.len()));
        assert forall|i: int| 0 <= i < s.len() - left.len() implies is_space(#[trigger] s[i]) by {
            if i > 0 {
                assert(rest[i - 1] == s[i]);
            }
        }
    } else {
        assert(s.skip(0) =~= s);
    }
}

/// Trimming a text that neither begins nor ends with white space gives that text back, whatever white
/// space was put around it.
pub proof fn law_trim_gives_the_text_back(before: Seq<char>, s: Seq<char>, after: Seq<char>)
    requires
        forall|i: int| 0 <= i < before.len() ==> is_space(#[trigger] before[i]),
        forall|i: int| 0 <= i < after.len() ==> is_space(#[trigger] after[i]),
        s.len() > 0,
        !is_space(s[0]),
        !is_space(s.last()),
    ensures
        trim(before + s + after) == s,
        trim_end(s + after) == s,
{
    let whole = before + s + after;
    let begun = trim_start(whole);
    law_trim_start_takes_white_space(whole);
    let k = whole.len() - begun.len();
    assert(whole[before.len() as int] == s[0]);
    assert(k <= before.len());
    if k < before.len() {
        assert(begun[0] == whole[k]);
        assert(whole[k] == before[k]);
    }
    assert(begun =~= s + after);
    law_trim_end_takes_white_space(begun);
    let done = trim_end(begun);
    let n = done.len() as int;
    assert(begun[s.len() - 1] == s.last());
    assert(n >= s.len());
    if n > s.len() {
        assert(done.last() == begun[n - 1]);
        assert(begun[n - 1] == after[n - 1 - s.len()]);
    }
    assert(begun.take(n) =~= s);
}

/// A text that is split once is split at the first separator.
pub proof fn law_split_once_at_the_first(before: Seq<char>, sep: char, after: Seq<char>)
    requires
        !before.contains(sep),
    ensures
        split_once(before.push(sep) + after, sep) == Some((before, after)),
        split_once(before, sep) is None,
{
    let whole = before.push(sep) + after;
    let n = before.len() as int;
    assert(whole[n] == sep);
    assert forall|j: int| 0 <= j < n implies whole[j] != sep by {
        assert(whole[j] == before[j]);
    }
    lemma_first_index(whole, sep, n);
    assert(whole.take(n) =~= before);
    assert(whole.skip(n + 1) =~= after);
}

/// A number that is written down is read back, unless it is too large.
pub proof fn law_decimal_is_read_back(n: nat, max: nat)
    ensures
        parse_unsigned(decimal(n), 10, max) == if n <= max {
            Some(n)
        } else {
            None::<nat>
        },
{
    let s = decimal(n);
    law_decimal_is_digits(n);
    law_decimal_round_trip(n);
    assert(unsigned_digits(s) == s) by {
        assert('0' <= s[0] <= '9');
    }
    assert forall|i: int| 0 <= i < s.len() implies digit_value(#[trigger] s[i]) < 10 by {
        assert('0' <= s[i] <= '9');
    }
}

/// Digits that follow digits weigh less: each digit that comes after multiplies what stands before it
/// by the base.
pub proof fn law_digits_concatenate(a: Seq<char>, b: Seq<char>, radix: nat)
    ensures
        digits_value(a + b, radix) == digits_value(a, radix) * power(radix, b.len()) + digits_value(
            b,
            radix,
        ),
    decreases b.len(),
{
    if b.len() == 0 {
        assert(a + b =~= a);
        let (va, p) = (digits_value(a, radix), power(radix, b.len()));
        assert(va * p == va) by (nonlinear_arith)
            requires
                p == 1,
        ;
    } else {
        let init = b.drop_last();
        law_digits_concatenate(a, init, radix);
        assert((a + b).drop_last() =~= a + init);
        let (va, p, vi, d) = (
            digits_value(a, radix),
            power(radix, init.len()),
            digits_value(init, radix),
            digit_value(b.last()),
        );
        assert((a + b).last() == b.last());
        assert((va * p + vi) * radix + d == va * (radix * p) + (vi * radix + d)) by (nonlinear_arith);
    }
}

/// A number that is written with a fixed number of digits is read back, as far as it fits.
pub proof fn law_padded_round_trip(n: nat, radix: nat, width: nat)
    requires
        2 <= radix <= 16,
    ensures
        padded(n, radix, width).len() == width,
        n < power(radix, width) ==> digits_value(padded(n, radix, width), radix) == n,
        forall|i: int|
            0 <= i < width ==> digit_value(#[trigger] padded(n, radix, width)[i]) < radix,
    decreases width,
{
    lemma_padded_len(n, radix, width);
    if width > 0 {
        let w = (width - 1) as nat;
        let (q, d) = (n / radix, n % radix);
        law_padded_round_trip(q, radix, w);
        let s = padded(n, radix, width);
        let init = padded(q, radix, w);
        assert(d < radix) by (nonlinear_arith)
            requires
                d == n % radix,
                radix >= 2,
        ;
        assert(digit_value(digit_char(d)) == d);
        assert(s.drop_last() =~= init);
        assert(s.last() == digit_char(d));
        if n < power(radix, width) {
            let p = power(radix, w);
            assert(q < p) by (nonlinear_arith)
                requires
                    n < radix * p,
                    q == n / radix,
                    radix >= 2,
            ;
            assert(q * radix + d == n) by (nonlinear_arith)
                requires
                    q == n / radix,
                    d == n % radix,
                    radix >= 2,
            ;
        }
        assert forall|i: int| 0 <= i < width implies digit_value(#[trigger] s[i]) < radix by {
            if i < w {
                assert(s[i] == init[i]);
            }
        }
    } else {
        assert(power(radix, width) == 1);
    }
}

/// Texts are ordered as in a dictionary: by the first character in which they differ, and the shorter
/// one comes first where it is the beginning of the other.
pub proof fn law_dictionary_order(common: Seq<char>, a: Seq<char>, b: Seq<char>)
    ensures
        a.len() > 0 && b.len() > 0 && a[0] < b[0] ==> comes_before(common + a, common + b),
        b.len() > 0 ==> comes_before(common, common + b),
        !comes_before(common + b, common),
    decreases common.len(),
{
    if common.len() > 0 {
        let rest = common.skip(1);
        law_dictionary_order(rest, a, b);
        assert((common + a).skip(1) =~= rest + a);
        assert((common + b).skip(1) =~= rest + b);
    } else {
        assert(common + a =~= a);
        assert(common + b =~= b);
    }
}

/// The words of a text are not empty and hold no white space.
pub proof fn law_words_are_words(s: Seq<char>, i: int)
    requires
        0 <= i < words(s).len(),
    ensures
        words(s)[i].len() > 0,
        forall|j: int| 0 <= j < words(s)[i].len() ==> !is_space(#[trigger] words(s)[i][j]),
{
    let parts = split_where(s, any_space());
    lemma_nonempty_is_of(parts, i);
    let k = choose|k: int| 0 <= k < parts.len() && #[trigger] parts[k] == nonempty(parts)[i];
    lemma_parts_hold_no_separator(s, any_space(), k);
}

/// What is not empty of `parts` is one of them.
proof fn lemma_nonempty_is_of(parts: Seq<Seq<char>>, i: int)
    requires
        0 <= i < nonempty(parts).len(),
    ensures
        nonempty(parts)[i].len() > 0,
        exists|k: int| 0 <= k < parts.len() && #[trigger] parts[k] == nonempty(parts)[i],
    decreases parts.len(),
{
    if parts.len() > 0 {
        let init = parts.drop_last();
        if parts.last().len() > 0 && i == nonempty(parts).len() - 1 {
            assert(parts[parts.len() - 1] == nonempty(parts)[i]);
        } else {
            lemma_nonempty_is_of(init, i);
            let k = choose|k: int| 0 <= k < init.len() && #[trigger] init[k] == nonempty(init)[i];
            assert(parts[k] == nonempty(parts)[i]);
        }
    }
}

/// A part between separators holds none.
proof fn lemma_parts_hold_no_separator(s: Seq<char>, is_sep: spec_fn(char) -> bool, k: int)
    requires
        0 <= k < split_where(s, is_sep).len(),
    ensures
        forall|j: int|
            0 <= j < split_where(s, is_sep)[k].len() ==> !is_sep(
                #[trigger] split_where(s, is_sep)[k][j],
            ),
    decreases s.len(),
{
    if s.len() > 0 {
        let before = split_where(s.drop_last(), is_sep);
        let now = split_where(s, is_sep);
        lemma_split_where_nonempty(s.drop_last(), is_sep);
        if k < before.len() {
            lemma_parts_hold_no_separator(s.drop_last(), is_sep, k);
            if k == before.len() - 1 && !is_sep(s.last()) {
                assert(now[k] == before.last().push(s.last()));
                assert forall|j: int| 0 <= j < now[k].len() implies !is_sep(
                    #[trigger] now[k][j],
                ) by {
                    if j < before[k].len() {
                        assert(now[k][j] == before[k][j]);
                    }
                }
            } else {
                assert(now[k] == before[k]);
            }
        }
    }
}

/// Words between single spaces are read back.
pub proof fn law_words_come_apart(first: Seq<char>, rest: Seq<char>)
    requires
        first.len() > 0,
        forall|i: int| 0 <= i < first.len() ==> !is_space(#[trigger] first[i]),
    ensures
        words(first) == seq![first],
        words(first.push(' ') + rest) == seq![first] + words(rest),
{
    let sep = any_space();
    assert(is_space(' '));
    law_split_without_a_separator(first, sep);
    law_split_at_a_separator(first, ' ', rest, sep);
    let parts = split_where(rest, sep);
    lemma_nonempty_of_both(seq![first], parts);
    reveal_with_fuel(nonempty, 2);
    assert(seq![first].drop_last() =~= Seq::<Seq<char>>::empty());
    assert(nonempty(seq![first]) =~= seq![first]);
}

/// What is not empty of two rows of parts is what is not empty of each.
proof fn lemma_nonempty_of_both(a: Seq<Seq<char>>, b: Seq<Seq<char>>)
    ensures
        nonempty(a + b) == nonempty(a) + nonempty(b),
    decreases b.len(),
{
    if b.len() == 0 {
        assert(a + b =~= a);
        assert(nonempty(a) + nonempty(b) =~= nonempty(a));
    } else {
        lemma_nonempty_of_both(a, b.drop_last());
        assert((a + b).drop_last() =~= a + b.drop_last());
        assert((a + b).last() == b.last());
        assert(nonempty(a + b) =~= nonempty(a) + nonempty(b));
    }
}

/// A text is split at its first separator: what stands before it is the first part, and the parts of
/// what stands behind it are the others.
pub proof fn law_first_part_comes_off(first: Seq<char>, sep: char, rest: Seq<char>)
    requires
        !first.contains(sep),
    ensures
        split(first.push(sep) + rest, sep) == seq![first] + split(rest, sep),
{
    law_split_at_a_separator(first, sep, rest, just(sep));
    law_text_without_separator_is_one_part(first, sep);
}

/// A text without separators is its only part.
pub proof fn law_text_without_separator_is_one_part(s: Seq<char>, sep: char)
    requires
        !s.contains(sep),
    ensures
        split(s, sep) == seq![s],
{
    assert forall|i: int| 0 <= i < s.len() implies !just(sep)(#[trigger] s[i]) by {
        assert(s.contains(s[i]));
    }
    law_split_without_a_separator(s, just(sep));
}

} // verus!
