//! Numbers as bytes, the most significant byte first.

use vstd::prelude::*;

verus! {

/// The number that bytes write.
pub open spec fn be(s: Seq<u8>) -> nat
    decreases s.len(),
{
    if s.len() == 0 {
        0
    } else {
        be(s.drop_last()) * 256 + s.last() as nat
    }
}

/// The last `width` bytes of a number.
pub open spec fn to_be(n: nat, width: nat) -> Seq<u8>
    decreases width,
{
    if width == 0 {
        Seq::empty()
    } else {
        to_be(n / 256, (width - 1) as nat).push((n % 256) as u8)
    }
}

/// One more than the largest number that `width` bytes can write.
pub open spec fn range(width: nat) -> nat
    decreases width,
{
    if width == 0 {
        1
    } else {
        range((width - 1) as nat) * 256
    }
}

/// A number of `width` bytes has that many.
pub proof fn lemma_to_be_len(n: nat, width: nat)
    ensures
        to_be(n, width).len() == width,
    decreases width,
{
    if width > 0 {
        lemma_to_be_len(n / 256, (width - 1) as nat);
    }
}

/// What fits is read back.
pub proof fn lemma_be_of_to_be(n: nat, width: nat)
    requires
        n < range(width),
    ensures
        be(to_be(n, width)) == n,
    decreases width,
{
    if width > 0 {
        let w = (width - 1) as nat;
        lemma_be_of_to_be(n / 256, w);
        assert(to_be(n, width).drop_last() =~= to_be(n / 256, w));
    }
}

/// Bytes are determined by their number and how many they are.
pub proof fn lemma_to_be_of_be(s: Seq<u8>)
    ensures
        to_be(be(s), s.len()) == s,
        be(s) < range(s.len()),
    decreases s.len(),
{
    if s.len() > 0 {
        lemma_to_be_of_be(s.drop_last());
        assert(be(s) / 256 == be(s.drop_last()));
        assert(be(s) % 256 == s.last());
        assert(s.drop_last().push(s.last()) =~= s);
    } else {
        assert(to_be(0, 0) =~= s);
    }
}

/// The sizes that the formats here use.
pub proof fn lemma_ranges()
    ensures
        range(2) == 0x1_0000,
        range(4) == 0x1_0000_0000,
        range(8) == 0x1_0000_0000_0000_0000,
{
    reveal_with_fuel(range, 9);
}

/// The last `width` bytes of a number.
pub fn bytes_of(n: u64, width: usize) -> (out: Vec<u8>)
    ensures
        out@ == to_be(n as nat, width as nat),
    decreases width,
{
    if width == 0 {
        Vec::new()
    } else {
        let mut out = bytes_of(n / 256, width - 1);
        out.push((n % 256) as u8);
        out
    }
}

/// The number that up to eight bytes write.
pub fn number_of(bytes: &[u8]) -> (n: u64)
    requires
        bytes@.len() <= 8,
    ensures
        n == be(bytes@),
{
    let mut n: u64 = 0;
    let mut i: usize = 0;
    proof {
        assert(bytes@.take(0) =~= Seq::<u8>::empty());
    }
    while i < bytes.len()
        invariant
            i <= bytes@.len() <= 8,
            n == be(bytes@.take(i as int)),
        decreases bytes@.len() - i,
    {
        proof {
            assert(bytes@.take(i + 1).drop_last() =~= bytes@.take(i as int));
            lemma_to_be_of_be(bytes@.take(i as int));
            lemma_range_grows(i as nat, 7);
            lemma_ranges();
            reveal_with_fuel(range, 2);
        }
        n = n * 256 + bytes[i] as u64;
        i = i + 1;
    }
    proof {
        assert(bytes@.take(i as int) =~= bytes@);
    }
    n
}

/// More bytes write more numbers.
proof fn lemma_range_grows(a: nat, b: nat)
    requires
        a <= b,
    ensures
        range(a) <= range(b),
    decreases b,
{
    if a < b {
        lemma_range_grows(a, (b - 1) as nat);
    }
}

/// Appends `tail` to `out`.
pub fn append_bytes(out: &mut Vec<u8>, tail: &[u8])
    ensures
        final(out)@ == old(out)@ + tail@,
{
    let ghost before = out@;
    let mut i: usize = 0;
    while i < tail.len()
        invariant
            i <= tail@.len(),
            out@ == before + tail@.take(i as int),
        decreases tail@.len() - i,
    {
        proof {
            assert((before + tail@.take(i as int)).push(tail@[i as int]) =~= before + tail@.take(
                i + 1,
            ));
        }
        out.push(tail[i]);
        i = i + 1;
    }
    proof {
        assert(tail@.take(i as int) =~= tail@);
    }
}

/// The byte that comes first weighs most.
pub proof fn law_most_significant_byte_first(first: u8, rest: Seq<u8>)
    ensures
        be(seq![first] + rest) == first * range(rest.len()) + be(rest),
    decreases rest.len(),
{
    let s = seq![first] + rest;
    if rest.len() == 0 {
        assert(s.drop_last() =~= Seq::<u8>::empty());
        assert(s.last() == first);
        assert(be(s.drop_last()) == 0);
        let r = range(rest.len());
        assert(first * r == first) by (nonlinear_arith)
            requires
                r == 1,
        ;
    } else {
        let init = rest.drop_last();
        law_most_significant_byte_first(first, init);
        assert(s.drop_last() =~= seq![first] + init);
        assert(s.last() == rest.last());
        let (r, v) = (range(init.len()), be(init));
        assert((first * r + v) * 256 == first * (r * 256) + v * 256) by (nonlinear_arith);
    }
}

} // verus!
