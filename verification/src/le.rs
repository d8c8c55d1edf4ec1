//! Little-endian encoding of unsigned integers.
use vstd::arithmetic::power::*;
use vstd::prelude::*;

verus! {

/// The number of values that `width` bytes can hold.
pub open spec fn byte_range(width: nat) -> nat
    decreases width,
{
    if width == 0 {
        1
    } else {
        256 * byte_range((width - 1) as nat)
    }
}

/// The lowest `width` bytes of `value`, least significant byte first.
pub open spec fn le_bytes(value: nat, width: nat) -> Seq<u8>
    decreases width,
{
    if width == 0 {
        Seq::empty()
    } else {
        seq![(value % 256) as u8] + le_bytes(value / 256, (width - 1) as nat)
    }
}

/// The number that `bytes` spell, least significant byte first.
pub open spec fn le_value(bytes: Seq<u8>) -> nat
    decreases bytes.len(),
{
    if bytes.len() == 0 {
        0
    } else {
        bytes[0] as nat + 256 * le_value(bytes.skip(1))
    }
}

pub proof fn lemma_byte_range_values()
    ensures
        byte_range(4) == 0x1_0000_0000,
        byte_range(8) == 0x1_0000_0000_0000_0000,
{
    reveal_with_fuel(byte_range, 9);
}

pub proof fn lemma_le_bytes_len(value: nat, width: nat)
    ensures
        le_bytes(value, width).len() == width,
    decreases width,
{
    if width > 0 {
        lemma_le_bytes_len(value / 256, (width - 1) as nat);
    }
}

/// `width` bytes spell a number below [`byte_range`] of `width`.
pub proof fn lemma_le_value_bound(bytes: Seq<u8>)
    ensures
        le_value(bytes) < byte_range(bytes.len()),
    decreases bytes.len(),
{
    if bytes.len() > 0 {
        lemma_le_value_bound(bytes.skip(1));
    }
}

/// Decoding undoes encoding, for every number that the bytes can hold.
pub proof fn le_value_of_le_bytes(value: nat, width: nat)
    requires
        value < byte_range(width),
    ensures
        le_value(le_bytes(value, width)) == value,
    decreases width,
{
    if width > 0 {
        let rest = (width - 1) as nat;
        le_value_of_le_bytes(value / 256, rest);
        lemma_le_bytes_len(value / 256, rest);
        assert(le_bytes(value, width).skip(1) =~= le_bytes(value / 256, rest));
    }
}

/// Encoding undoes decoding, for every sequence of bytes.
pub proof fn le_bytes_of_le_value(bytes: Seq<u8>)
    ensures
        le_bytes(le_value(bytes), bytes.len()) == bytes,
    decreases bytes.len(),
{
    if bytes.len() > 0 {
        let rest = bytes.skip(1);
        le_bytes_of_le_value(rest);
        assert(le_value(bytes) / 256 == le_value(rest));
        assert(le_value(bytes) % 256 == bytes[0]);
        assert(bytes =~= seq![bytes[0]] + rest);
    } else {
        assert(bytes =~= Seq::empty());
    }
}

/// Writes the lowest `width` bytes of `value` into `bytes`, starting at index `at`.
pub(crate) fn put_le<const N: usize>(bytes: &mut [u8; N], at: usize, width: usize, value: u64)
    requires
        at + width <= N,
    ensures
        final(bytes)@ == old(bytes)@.subrange(0, at as int) + le_bytes(value as nat, width as nat)
            + old(bytes)@.subrange(at + width, N as int),
{
    let mut rest: u64 = value;
    let mut i: usize = 0;
    let ghost head = old(bytes)@.subrange(0, at as int);
    let ghost tail = old(bytes)@.subrange(at + width, N as int);
    while i < width
        invariant
            i <= width,
            at + width <= N,
            bytes@.len() == N,
            bytes@.subrange(0, at as int) == head,
            bytes@.subrange(at + width, N as int) == tail,
            bytes@.subrange(at as int, at + i) + le_bytes(rest as nat, (width - i) as nat)
                == le_bytes(value as nat, width as nat),
        decreases width - i,
    {
        let ghost before = bytes@;
        let ghost before_rest = rest;
        bytes[at + i] = (rest % 256) as u8;
        rest = rest / 256;
        i = i + 1;
        proof {
            assert(bytes@.subrange(0, at as int) =~= before.subrange(0, at as int));
            assert(bytes@.subrange(at + width, N as int) =~= before.subrange(at + width, N as int));
            assert(bytes@.subrange(at as int, at + i) =~= before.subrange(at as int, at + i - 1)
                + seq![(before_rest % 256) as u8]);
            assert(before.subrange(at as int, at + i - 1) + (seq![(before_rest % 256) as u8]
                + le_bytes(rest as nat, (width - i) as nat)) =~= bytes@.subrange(
                at as int,
                at + i,
            ) + le_bytes(rest as nat, (width - i) as nat));
        }
    }
    proof {
        assert(bytes@.subrange(at as int, at + i) + le_bytes(rest as nat, 0) =~= bytes@.subrange(
            at as int,
            at + width,
        ));
        assert(bytes@ =~= head + le_bytes(value as nat, width as nat) + tail);
    }
}

/// Reads the number that `width` bytes of `bytes` spell, starting at index `at`.
pub(crate) fn get_le<const N: usize>(bytes: &[u8; N], at: usize, width: usize) -> (value: u64)
    requires
        at + width <= N,
        width <= 8,
    ensures
        value == le_value(bytes@.subrange(at as int, at + width)),
{
    let mut value: u64 = 0;
    let mut i: usize = width;
    while i > 0
        invariant
            i <= width <= 8,
            at + width <= N,
            bytes@.len() == N,
            value == le_value(bytes@.subrange(at + i, at + width)),
        decreases i,
    {
        i = i - 1;
        proof {
            let suffix = bytes@.subrange(at + i, at + width);
            assert(suffix.skip(1) =~= bytes@.subrange(at + i + 1, at + width));
            lemma_le_value_bound(suffix);
            lemma_byte_range_monotonic(suffix.len(), 8);
            lemma_byte_range_values();
        }
        value = bytes[at + i] as u64 + 256 * value;
    }
    value
}

proof fn lemma_byte_range_monotonic(a: nat, b: nat)
    requires
        a <= b,
    ensures
        1 <= byte_range(a) <= byte_range(b),
    decreases b,
{
    if a < b {
        lemma_byte_range_monotonic(a, (b - 1) as nat);
    } else if b > 0 {
        lemma_byte_range_monotonic((a - 1) as nat, (b - 1) as nat);
    }
}

/// Byte `i` of an encoding is the number's digit `i` to the base of 256.
pub proof fn le_bytes_are_digits(value: nat, width: nat, i: nat)
    requires
        i < width,
    ensures
        le_bytes(value, width).len() == width,
        le_bytes(value, width)[i as int] as int == (value as int / pow(256, i)) % 256,
    decreases width,
{
    let rest = (width - 1) as nat;
    lemma_le_bytes_len(value, width);
    lemma_le_bytes_len(value / 256, rest);
    if i == 0 {
        lemma_pow0(256);
    } else {
        let j = (i - 1) as nat;
        le_bytes_are_digits(value / 256, rest, j);
        lemma_pow_positive(256, j);
        vstd::arithmetic::div_mod::lemma_div_denominator(value as int, 256, pow(256, j));
        assert(pow(256, i) == 256 * pow(256, j)) by {
            reveal(pow);
        }
    }
}

/// Digit `i`, to the base of 256, of the number that bytes spell is byte `i`, and the number has
/// no further digits.
pub proof fn le_value_has_the_bytes_as_digits(bytes: Seq<u8>, i: nat)
    requires
        i < bytes.len(),
    ensures
        (le_value(bytes) as int / pow(256, i)) % 256 == bytes[i as int],
        le_value(bytes) < pow(256, bytes.len()),
{
    le_bytes_of_le_value(bytes);
    le_bytes_are_digits(le_value(bytes), bytes.len(), i);
    lemma_le_value_bound(bytes);
    lemma_byte_range_is_power(bytes.len());
}

/// Four bytes spell the sum of the bytes times the powers of 256.
pub proof fn le_value_of_four(bytes: Seq<u8>)
    requires
        bytes.len() == 4,
    ensures
        le_value(bytes) == bytes[0] + 0x100 * bytes[1] + 0x1_0000 * bytes[2] + 0x100_0000
            * bytes[3],
{
    reveal_with_fuel(le_value, 5);
    assert(bytes.skip(1).skip(1) =~= bytes.skip(2));
    assert(bytes.skip(2).skip(1) =~= bytes.skip(3));
    assert(bytes.skip(3).skip(1) =~= Seq::<u8>::empty());
}

/// Eight bytes spell the sum of the bytes times the powers of 256.
pub proof fn le_value_of_eight(bytes: Seq<u8>)
    requires
        bytes.len() == 8,
    ensures
        le_value(bytes) == bytes[0] + 0x100 * bytes[1] + 0x1_0000 * bytes[2] + 0x100_0000 * bytes[3]
            + 0x1_0000_0000 * bytes[4] + 0x100_0000_0000 * bytes[5] + 0x1_0000_0000_0000 * bytes[6]
            + 0x100_0000_0000_0000 * bytes[7],
{
    let upper = bytes.skip(4);
    le_value_of_four(upper);
    assert(bytes.skip(1).skip(1) =~= bytes.skip(2));
    assert(bytes.skip(2).skip(1) =~= bytes.skip(3));
    assert(bytes.skip(3).skip(1) =~= upper);
    assert(le_value(bytes) == bytes[0] + 256 * le_value(bytes.skip(1)));
    assert(le_value(bytes.skip(1)) == bytes[1] + 256 * le_value(bytes.skip(2)));
    assert(le_value(bytes.skip(2)) == bytes[2] + 256 * le_value(bytes.skip(3)));
    assert(le_value(bytes.skip(3)) == bytes[3] + 256 * le_value(upper));
}

proof fn lemma_byte_range_is_power(width: nat)
    ensures
        byte_range(width) == pow(256, width),
    decreases width,
{
    reveal(pow);
    if width > 0 {
        lemma_byte_range_is_power((width - 1) as nat);
    }
}

} // verus!
