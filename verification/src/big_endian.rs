//! Fixed-width big-endian integers: base-256 positional notation, most
//! significant byte first, with two's complement for the signed types.

use vstd::prelude::*;

verus! {

/// 256 to the power `n`: the number of values that fit in `n` bytes.
pub open spec fn pow256(n: nat) -> nat
    decreases n,
{
    if n == 0 {
        1
    } else {
        256 * pow256((n - 1) as nat)
    }
}

/// The `width` low-order base-256 digits of `value`, most significant first.
pub open spec fn be_bytes(value: nat, width: nat) -> Seq<u8>
    decreases width,
{
    if width == 0 {
        Seq::empty()
    } else {
        be_bytes(value / 256, (width - 1) as nat).push((value % 256) as u8)
    }
}

/// The number that `bytes` denotes when read as base-256 digits, most
/// significant first.
pub open spec fn be_value(bytes: Seq<u8>) -> nat
    decreases bytes.len(),
{
    if bytes.len() == 0 {
        0
    } else {
        256 * be_value(bytes.drop_last()) + bytes.last() as nat
    }
}

/// The unsigned number with the same `width`-byte two's complement
/// representation as `x`.
pub open spec fn to_unsigned(x: int, width: nat) -> nat {
    if x < 0 {
        (x + pow256(width)) as nat
    } else {
        x as nat
    }
}

/// The signed number with the same `width`-byte two's complement
/// representation as `u`.
pub open spec fn to_signed(u: nat, width: nat) -> int {
    if 2 * u >= pow256(width) {
        u - pow256(width)
    } else {
        u as int
    }
}

/// Whether `x` is representable in `width` bytes of two's complement.
pub open spec fn fits_signed(x: int, width: nat) -> bool {
    -(pow256(width) as int) <= 2 * x < pow256(width)
}

/// The powers of 256 up to the eighth.
pub proof fn lemma_pow256_values()
    ensures
        pow256(0) == 1,
        pow256(1) == 0x100,
        pow256(2) == 0x1_0000,
        pow256(3) == 0x100_0000,
        pow256(4) == 0x1_0000_0000,
        pow256(5) == 0x100_0000_0000,
        pow256(6) == 0x1_0000_0000_0000,
        pow256(7) == 0x100_0000_0000_0000,
        pow256(8) == 0x1_0000_0000_0000_0000,
{
    reveal_with_fuel(pow256, 9);
}

/// Powers of 256 are positive and grow with the exponent.
pub proof fn lemma_pow256_monotonic(a: nat, b: nat)
    requires
        a <= b,
    ensures
        0 < pow256(a) <= pow256(b),
    decreases b,
{
    if b == 0 {
    } else if a == b {
        lemma_pow256_monotonic((a - 1) as nat, (b - 1) as nat);
    } else {
        lemma_pow256_monotonic(a, (b - 1) as nat);
    }
}

/// A number is written in as many bytes as asked for.
pub proof fn lemma_be_bytes_len(value: nat, width: nat)
    ensures
        be_bytes(value, width).len() == width,
    decreases width,
{
    if width > 0 {
        lemma_be_bytes_len(value / 256, (width - 1) as nat);
    }
}

/// What `n` bytes denote is below 256 to the power `n`.
pub proof fn lemma_be_value_bound(bytes: Seq<u8>)
    ensures
        be_value(bytes) < pow256(bytes.len()),
    decreases bytes.len(),
{
    if bytes.len() > 0 {
        lemma_be_value_bound(bytes.drop_last());
    }
}

/// Reading back the digits of a number that fits gives the number.
pub proof fn lemma_be_value_of_bytes(value: nat, width: nat)
    requires
        value < pow256(width),
    ensures
        be_value(be_bytes(value, width)) == value,
    decreases width,
{
    if width > 0 {
        let rest = be_bytes(value / 256, (width - 1) as nat);
        lemma_be_value_of_bytes(value / 256, (width - 1) as nat);
        assert(be_bytes(value, width).drop_last() =~= rest);
    }
}

/// Writing out the number that digits denote gives the digits.
pub proof fn lemma_be_bytes_of_value(bytes: Seq<u8>)
    ensures
        be_bytes(be_value(bytes), bytes.len()) == bytes,
    decreases bytes.len(),
{
    if bytes.len() > 0 {
        lemma_be_bytes_of_value(bytes.drop_last());
        let v = be_value(bytes);
        assert(v / 256 == be_value(bytes.drop_last()));
        assert(v % 256 == bytes.last() as nat);
        assert(be_bytes(v, bytes.len()) =~= bytes);
    }
}

/// Writes `value` as `width` big-endian bytes, dropping what does not fit.
pub fn encode_be(value: u64, width: usize) -> (bytes: Vec<u8>)
    ensures
        bytes@ == be_bytes(value as nat, width as nat),
{
    let mut bytes: Vec<u8> = Vec::new();
    let mut k: usize = 0;
    while k < width
        invariant
            k <= width,
            bytes@.len() == k,
            forall|j: int| 0 <= j < k ==> bytes@[j] == 0u8,
        decreases width - k,
    {
        bytes.push(0u8);
        k = k + 1;
    }
    let mut rest: u64 = value;
    let mut i: usize = width;
    while i > 0
        invariant
            i <= width,
            bytes@.len() == width,
            be_bytes(value as nat, width as nat) == be_bytes(rest as nat, i as nat)
                + bytes@.subrange(i as int, width as int),
        decreases i,
    {
        let ghost before = bytes@;
        i = i - 1;
        bytes.set(i, (rest % 256) as u8);
        proof {
            assert(be_bytes(rest as nat, (i + 1) as nat) + before.subrange(i + 1, width as int)
                =~= be_bytes((rest / 256) as nat, i as nat) + bytes@.subrange(
                i as int,
                width as int,
            ));
        }
        rest = rest / 256;
    }
    assert(bytes@.subrange(0, width as int) =~= bytes@);
    bytes
}

/// Reads at most eight big-endian bytes as a number.
pub fn decode_be(bytes: &[u8]) -> (value: u64)
    requires
        bytes@.len() <= 8,
    ensures
        value == be_value(bytes@),
{
    let mut value: u64 = 0;
    let mut i: usize = 0;
    while i < bytes.len()
        invariant
            i <= bytes@.len() <= 8,
            value == be_value(bytes@.take(i as int)),
        decreases bytes@.len() - i,
    {
        proof {
            let next = bytes@.take(i + 1);
            assert(next.drop_last() =~= bytes@.take(i as int));
            lemma_be_value_bound(next);
            lemma_pow256_monotonic(next.len(), 8);
            lemma_pow256_values();
        }
        value = value * 256 + bytes[i] as u64;
        i = i + 1;
    }
    assert(bytes@.take(i as int) =~= bytes@);
    value
}

/// The largest number that fits in `width` bytes.
pub(crate) fn max_unsigned(width: usize) -> (max: u64)
    requires
        width <= 8,
    ensures
        max == pow256(width as nat) - 1,
{
    let mut max: u64 = 0;
    let mut i: usize = 0;
    while i < width
        invariant
            i <= width <= 8,
            max == pow256(i as nat) - 1,
        decreases width - i,
    {
        proof {
            lemma_pow256_monotonic((i + 1) as nat, 8);
            lemma_pow256_values();
        }
        max = max * 256 + 255;
        i = i + 1;
    }
    max
}

/// The `width`-byte two's complement representation of `x`, as a number.
pub(crate) fn unsigned_of(x: i64, width: usize) -> (u: u64)
    requires
        1 <= width <= 8,
        fits_signed(x as int, width as nat),
    ensures
        u == to_unsigned(x as int, width as nat),
        u < pow256(width as nat),
{
    proof {
        lemma_pow256_monotonic(width as nat, 8);
        lemma_pow256_values();
    }
    if x >= 0 {
        x as u64
    } else {
        max_unsigned(width) - ((-(x + 1)) as u64)
    }
}

/// The number whose `width`-byte two's complement representation is `u`.
pub(crate) fn signed_of(u: u64, width: usize) -> (x: i64)
    requires
        1 <= width <= 8,
        u < pow256(width as nat),
    ensures
        x == to_signed(u as nat, width as nat),
        fits_signed(x as int, width as nat),
{
    proof {
        lemma_pow256_monotonic(width as nat, 8);
        lemma_pow256_values();
    }
    let max: u64 = max_unsigned(width);
    if u <= max / 2 {
        u as i64
    } else {
        -((max - u) as i64) - 1
    }
}

/// Two's complement is a bijection between the signed and the unsigned
/// numbers of one width.
pub proof fn lemma_signed_unsigned(x: int, width: nat)
    requires
        width >= 1,
        fits_signed(x, width),
    ensures
        to_unsigned(x, width) < pow256(width),
        to_signed(to_unsigned(x, width), width) == x,
{
    lemma_pow256_monotonic(1, width);
    assert(pow256(1) == 256) by {
        reveal_with_fuel(pow256, 2);
    }
}

/// The other direction of the same bijection.
pub proof fn lemma_unsigned_signed(u: nat, width: nat)
    requires
        width >= 1,
        u < pow256(width),
    ensures
        fits_signed(to_signed(u, width), width),
        to_unsigned(to_signed(u, width), width) == u,
{
    lemma_pow256_monotonic(1, width);
    assert(pow256(1) == 256) by {
        reveal_with_fuel(pow256, 2);
    }
    assert(pow256(width) % 2 == 0) by {
        assert(pow256(width) == 256 * pow256((width - 1) as nat));
    }
}

} // verus!
