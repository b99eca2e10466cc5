//! Numbers as bytes, least significant byte first or most significant byte first.

use vstd::arithmetic::div_mod::lemma_div_denominator;
use vstd::arithmetic::power::{lemma_pow0, lemma_pow_positive, pow};
use vstd::prelude::*;

verus! {

/// The `count` lowest base-256 digits of `n`, least significant first.
pub open spec fn le_bytes(n: nat, count: nat) -> Seq<u8>
    decreases count,
{
    if count == 0 {
        seq![]
    } else {
        seq![(n % 256) as u8] + le_bytes(n / 256, (count - 1) as nat)
    }
}

/// The number whose base-256 digits, least significant first, are `bytes`.
pub open spec fn le_value(bytes: Seq<u8>) -> nat
    decreases bytes.len(),
{
    if bytes.len() == 0 {
        0
    } else {
        bytes[0] as nat + 256 * le_value(bytes.skip(1))
    }
}

/// The eight bytes of a 64-bit number, most significant first.
pub open spec fn be_bytes(n: u64) -> Seq<u8> {
    le_bytes(n as nat, 8).reverse()
}

/// `le_bytes` gives as many bytes as were asked for.
pub proof fn lemma_le_bytes_len(n: nat, count: nat)
    ensures
        le_bytes(n, count).len() == count,
    decreases count,
{
    if count > 0 {
        lemma_le_bytes_len(n / 256, (count - 1) as nat);
    }
}

/// Reading the low bytes of a number gives the number back, up to what they can hold.
proof fn lemma_le_value_step(n: nat, count: nat)
    requires
        count > 0,
    ensures
        le_value(le_bytes(n, count)) == n % 256 + 256 * le_value(
            le_bytes(n / 256, (count - 1) as nat),
        ),
{
    let rest = le_bytes(n / 256, (count - 1) as nat);
    assert(le_bytes(n, count).skip(1) =~= rest);
}

/// The eight little-endian bytes of a 64-bit number read back as that number.
pub proof fn law_le_round_trip(n: u64)
    ensures
        le_bytes(n as nat, 8).len() == 8,
        le_value(le_bytes(n as nat, 8)) == n,
{
    lemma_le_bytes_len(n as nat, 8);
    let n0 = n as nat;
    let n1 = n0 / 256;
    let n2 = n1 / 256;
    let n3 = n2 / 256;
    let n4 = n3 / 256;
    let n5 = n4 / 256;
    let n6 = n5 / 256;
    let n7 = n6 / 256;
    lemma_le_value_step(n0, 8);
    lemma_le_value_step(n1, 7);
    lemma_le_value_step(n2, 6);
    lemma_le_value_step(n3, 5);
    lemma_le_value_step(n4, 4);
    lemma_le_value_step(n5, 3);
    lemma_le_value_step(n6, 2);
    lemma_le_value_step(n7, 1);
    assert(le_value(le_bytes(n7 / 256, 0)) == 0);
}

/// The eight bytes of `n`, least significant first.
pub fn u64_le(n: u64) -> (out: Vec<u8>)
    ensures
        out@ == le_bytes(n as nat, 8),
        out@.len() == 8,
{
    let mut out: Vec<u8> = Vec::with_capacity(8);
    let mut rest: u64 = n;
    let mut i: usize = 0;
    while i < 8
        invariant
            i <= 8,
            out@.len() == i,
            out@ + le_bytes(rest as nat, (8 - i) as nat) == le_bytes(n as nat, 8),
        decreases 8 - i,
    {
        let ghost before = out@;
        let ghost tail = le_bytes((rest / 256) as nat, (7 - i) as nat);
        out.push((rest % 256) as u8);
        assert(out@ + tail =~= before + (seq![(rest % 256) as u8] + tail));
        rest = rest / 256;
        i = i + 1;
    }
    assert(out@ + le_bytes(rest as nat, 0) =~= out@);
    out
}

/// The eight bytes of `n`, most significant first.
pub fn u64_be(n: u64) -> (out: Vec<u8>)
    ensures
        out@ == be_bytes(n),
        out@.len() == 8,
{
    let low: Vec<u8> = u64_le(n);
    let mut out: Vec<u8> = Vec::with_capacity(8);
    let mut i: usize = 0;
    while i < 8
        invariant
            i <= 8,
            low@.len() == 8,
            out@.len() == i,
            forall|j: int| 0 <= j < i ==> out@[j] == low@[7 - j],
        decreases 8 - i,
    {
        out.push(low[7 - i]);
        i = i + 1;
    }
    assert(out@ =~= low@.reverse());
    out
}

/// The number that eight bytes, least significant first, stand for.
pub fn le_u64(bytes: &[u8]) -> (n: u64)
    requires
        bytes@.len() == 8,
    ensures
        n == le_value(bytes@),
{
    proof {
        let s = bytes@;
        reveal_with_fuel(le_value, 9);
        assert(s.skip(1).skip(1) =~= s.skip(2));
        assert(s.skip(2).skip(1) =~= s.skip(3));
        assert(s.skip(3).skip(1) =~= s.skip(4));
        assert(s.skip(4).skip(1) =~= s.skip(5));
        assert(s.skip(5).skip(1) =~= s.skip(6));
        assert(s.skip(6).skip(1) =~= s.skip(7));
        assert(s.skip(7).skip(1) =~= s.skip(8));
    }
    let n7: u64 = bytes[7] as u64;
    let n6: u64 = bytes[6] as u64 + 256 * n7;
    let n5: u64 = bytes[5] as u64 + 256 * n6;
    let n4: u64 = bytes[4] as u64 + 256 * n5;
    let n3: u64 = bytes[3] as u64 + 256 * n4;
    let n2: u64 = bytes[2] as u64 + 256 * n3;
    let n1: u64 = bytes[1] as u64 + 256 * n2;
    bytes[0] as u64 + 256 * n1
}

/// Byte `i` of a number, least significant first, is the number's digit at `256` to the power `i`.
pub proof fn law_le_bytes_are_the_digits(n: nat, count: nat, i: nat)
    requires
        i < count,
    ensures
        le_bytes(n, count).len() == count,
        le_bytes(n, count)[i as int] == (n as int / pow(256, i)) % 256,
    decreases count,
{
    lemma_le_bytes_len(n, count);
    lemma_le_bytes_len(n / 256, (count - 1) as nat);
    if i == 0 {
        lemma_pow0(256);
        assert(n as int / 1 == n);
    } else {
        let j = (i - 1) as nat;
        law_le_bytes_are_the_digits(n / 256, (count - 1) as nat, j);
        lemma_pow_positive(256, j);
        reveal(pow);
        assert(pow(256, i) == 256 * pow(256, j));
        lemma_div_denominator(n as int, 256, pow(256, j));
        assert(le_bytes(n, count)[i as int] == le_bytes(n / 256, (count - 1) as nat)[j as int]);
    }
}

/// A further byte at the end counts for itself times `256` to the power of how many come before,
/// and no bytes stand for zero.
pub proof fn law_le_value_is_positional(bytes: Seq<u8>, b: u8)
    ensures
        le_value(seq![]) == 0,
        le_value(bytes.push(b)) == le_value(bytes) + b * pow(256, bytes.len()),
    decreases bytes.len(),
{
    let longer = bytes.push(b);
    reveal(pow);
    if bytes.len() == 0 {
        assert(longer.skip(1) =~= seq![]);
        assert(bytes =~= seq![]);
        assert(pow(256, 0) == 1);
        assert(le_value(longer) == longer[0] as nat + 256 * le_value(longer.skip(1)));
        assert(b * 1 == b);
    } else {
        let rest = bytes.skip(1);
        law_le_value_is_positional(rest, b);
        assert(longer.skip(1) =~= rest.push(b));
        let p = pow(256, rest.len());
        assert(pow(256, bytes.len()) == 256 * p);
        assert(256 * (b * p) == b * (256 * p)) by (nonlinear_arith);
    }
}

/// Most significant first, byte `i` of the eight is the digit at `256` to the power `7 - i`.
pub proof fn law_be_bytes_are_the_digits(n: u64, i: int)
    requires
        0 <= i < 8,
    ensures
        be_bytes(n).len() == 8,
        be_bytes(n)[i] == (n as int / pow(256, (7 - i) as nat)) % 256,
{
    law_le_bytes_are_the_digits(n as nat, 8, (7 - i) as nat);
}

} // verus!
