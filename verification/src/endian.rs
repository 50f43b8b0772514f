//! Fixed-width unsigned integers as byte strings, least significant byte first
//! (little endian) or most significant byte first (big endian).
use vstd::prelude::*;

verus! {

/// `256` to the power of `width`: how many numbers `width` bytes can tell apart.
pub open spec fn pow256(width: nat) -> nat
    decreases width,
{
    if width == 0 {
        1
    } else {
        256 * pow256((width - 1) as nat)
    }
}

/// The number that `bytes` denotes in little-endian order.
pub open spec fn le_value(bytes: Seq<u8>) -> nat
    decreases bytes.len(),
{
    if bytes.len() == 0 {
        0
    } else {
        bytes[0] as nat + 256 * le_value(bytes.skip(1))
    }
}

/// The number that `bytes` denotes in big-endian order.
pub open spec fn be_value(bytes: Seq<u8>) -> nat {
    le_value(bytes.reverse())
}

/// The lowest `width` bytes of `value` in little-endian order.
pub open spec fn le_bytes(value: nat, width: nat) -> Seq<u8>
    decreases width,
{
    if width == 0 {
        Seq::empty()
    } else {
        seq![(value % 256) as u8] + le_bytes(value / 256, (width - 1) as nat)
    }
}

/// The lowest `width` bytes of `value` in big-endian order.
pub open spec fn be_bytes(value: nat, width: nat) -> Seq<u8> {
    le_bytes(value, width).reverse()
}

/// `width` bytes denote a number below `256` to the power of `width`.
pub proof fn lemma_le_value_bound(bytes: Seq<u8>)
    ensures
        le_value(bytes) < pow256(bytes.len()),
    decreases bytes.len(),
{
    if bytes.len() > 0 {
        lemma_le_value_bound(bytes.skip(1));
    }
}

/// A number that fits in `width` bytes is denoted by its `width` bytes.
pub proof fn law_le_round_trip(value: nat, width: nat)
    requires
        value < pow256(width),
    ensures
        le_bytes(value, width).len() == width,
        le_value(le_bytes(value, width)) == value,
    decreases width,
{
    if width > 0 {
        law_le_round_trip(value / 256, (width - 1) as nat);
        assert(le_bytes(value, width).skip(1) =~= le_bytes(value / 256, (width - 1) as nat));
    }
}

/// A number that fits in `width` bytes is denoted by its `width` bytes, most
/// significant byte first as well.
pub proof fn law_be_round_trip(value: nat, width: nat)
    requires
        value < pow256(width),
    ensures
        be_bytes(value, width).len() == width,
        be_value(be_bytes(value, width)) == value,
{
    law_le_round_trip(value, width);
    assert(be_bytes(value, width).reverse() =~= le_bytes(value, width));
}

/// Every byte string is the little-endian form of the number it denotes, so no
/// two byte strings of one length denote the same number.
pub proof fn law_le_bytes_of_value(bytes: Seq<u8>)
    ensures
        le_bytes(le_value(bytes), bytes.len()) == bytes,
    decreases bytes.len(),
{
    if bytes.len() > 0 {
        law_le_bytes_of_value(bytes.skip(1));
        assert(le_value(bytes) % 256 == bytes[0] as nat);
        assert(le_value(bytes) / 256 == le_value(bytes.skip(1)));
        assert(seq![bytes[0]] + bytes.skip(1) =~= bytes);
    } else {
        assert(bytes =~= Seq::<u8>::empty());
    }
}

/// `width` bytes tell `256` to the power of `width` numbers apart.
pub proof fn law_pow256_is_a_power(width: nat)
    ensures
        pow256(width) == vstd::arithmetic::power::pow(256, width),
    decreases width,
{
    reveal(vstd::arithmetic::power::pow);
    if width > 0 {
        law_pow256_is_a_power((width - 1) as nat);
    }
}

proof fn lemma_le_value_of_last(bytes: Seq<u8>)
    requires
        bytes.len() > 0,
    ensures
        le_value(bytes) == le_value(bytes.drop_last()) + bytes.last()
            * vstd::arithmetic::power::pow(256, (bytes.len() - 1) as nat),
    decreases bytes.len(),
{
    let last = bytes.last() as int;
    if bytes.len() == 1 {
        vstd::arithmetic::power::lemma_pow0(256);
        assert(bytes.skip(1) =~= Seq::<u8>::empty());
        assert(bytes.drop_last() =~= Seq::<u8>::empty());
    } else {
        lemma_le_value_of_last(bytes.skip(1));
        assert(bytes.skip(1).drop_last() =~= bytes.drop_last().skip(1));
        let small = vstd::arithmetic::power::pow(256, (bytes.len() - 2) as nat);
        let large = vstd::arithmetic::power::pow(256, (bytes.len() - 1) as nat);
        assert(large == 256 * small) by {
            reveal(vstd::arithmetic::power::pow);
        }
        assert(256 * (last * small) == last * large) by (nonlinear_arith)
            requires
                large == 256 * small,
        ;
    }
}

/// A byte string denotes in little-endian order the sum of its bytes, the i-th one
/// times `256` to the power of i.
pub proof fn law_le_value_is_the_sum_of_its_bytes(bytes: Seq<u8>)
    ensures
        le_value(bytes) == bytes.map(
            |i: int, byte: u8| byte * vstd::arithmetic::power::pow(256, i as nat),
        ).fold_left(0int, |sum: int, term: int| sum + term),
    decreases bytes.len(),
{
    let weighted = |i: int, byte: u8| byte * vstd::arithmetic::power::pow(256, i as nat);
    let plus = |sum: int, term: int| sum + term;
    if bytes.len() > 0 {
        law_le_value_is_the_sum_of_its_bytes(bytes.drop_last());
        lemma_le_value_of_last(bytes);
        assert(bytes.map(weighted).drop_last() =~= bytes.drop_last().map(weighted));
        assert(bytes.map(weighted).fold_left(0int, plus) == plus(
            bytes.map(weighted).drop_last().fold_left(0int, plus),
            bytes.map(weighted).last(),
        ));
    }
}

/// The bytes of a number are its digits to the base `256`, the lowest one first in
/// little-endian order.
pub proof fn law_le_bytes_are_digits(value: nat, width: nat)
    ensures
        le_bytes(value, width).len() == width,
        forall|i: int|
            0 <= i < width ==> #[trigger] le_bytes(value, width)[i] == (value as int
                / vstd::arithmetic::power::pow(256, i as nat)) % 256,
    decreases width,
{
    if width > 0 {
        let rest = le_bytes(value / 256, (width - 1) as nat);
        law_le_bytes_are_digits(value / 256, (width - 1) as nat);
        assert forall|i: int| 0 <= i < width implies #[trigger] le_bytes(value, width)[i] == (
        value as int / vstd::arithmetic::power::pow(256, i as nat)) % 256 by {
            if i == 0 {
                vstd::arithmetic::power::lemma_pow0(256);
            } else {
                let small = vstd::arithmetic::power::pow(256, (i - 1) as nat);
                assert(le_bytes(value, width)[i] == rest[i - 1]);
                vstd::arithmetic::power::lemma_pow_positive(256, (i - 1) as nat);
                assert(vstd::arithmetic::power::pow(256, i as nat) == 256 * small) by {
                    reveal(vstd::arithmetic::power::pow);
                }
                vstd::arithmetic::div_mod::lemma_div_denominator(value as int, 256, small);
            }
        }
    }
}

/// How many bytes make up the widest number that is read or written here.
pub const MAX_WIDTH: usize = 16;

/// Sixteen bytes are enough for every `u128` and for no more.
pub proof fn lemma_pow256_widths()
    ensures
        pow256(1) == u8::MAX + 1,
        pow256(2) == u16::MAX + 1,
        pow256(4) == u32::MAX + 1,
        pow256(8) == u64::MAX + 1,
        pow256(16) == u128::MAX + 1,
{
    reveal_with_fuel(pow256, 17);
}

/// More bytes tell more numbers apart.
pub proof fn lemma_pow256_increases(narrow: nat, wide: nat)
    requires
        narrow <= wide,
    ensures
        0 < pow256(narrow) <= pow256(wide),
    decreases wide,
{
    if narrow < wide {
        lemma_pow256_increases(narrow, (wide - 1) as nat);
    } else if wide > 0 {
        lemma_pow256_increases((narrow - 1) as nat, (wide - 1) as nat);
    }
}

/// Writes `value` as `width` little-endian bytes.
pub fn encode_le(value: u128, width: usize) -> (bytes: Vec<u8>)
    ensures
        bytes@ == le_bytes(value as nat, width as nat),
{
    let mut bytes: Vec<u8> = Vec::new();
    let mut rest: u128 = value;
    let mut written: usize = 0;
    while written < width
        invariant
            written <= width,
            bytes@ + le_bytes(rest as nat, (width - written) as nat) =~= le_bytes(
                value as nat,
                width as nat,
            ),
        decreases width - written,
    {
        bytes.push((rest % 256) as u8);
        rest = rest / 256;
        written = written + 1;
    }
    bytes
}

/// Writes `value` as `width` big-endian bytes.
pub fn encode_be(value: u128, width: usize) -> (bytes: Vec<u8>)
    ensures
        bytes@ == be_bytes(value as nat, width as nat),
{
    let little: Vec<u8> = encode_le(value, width);
    reversed(little.as_slice())
}

fn reversed(bytes: &[u8]) -> (result: Vec<u8>)
    ensures
        result@ == bytes@.reverse(),
{
    let mut result: Vec<u8> = Vec::new();
    let mut left: usize = bytes.len();
    while left > 0
        invariant
            left <= bytes@.len(),
            result@ =~= bytes@.skip(left as int).reverse(),
        decreases left,
    {
        left = left - 1;
        result.push(bytes[left]);
    }
    assert(bytes@.skip(0) =~= bytes@);
    result
}

/// Reads at most sixteen bytes as a little-endian number.
pub fn decode_le(bytes: &[u8]) -> (value: u128)
    requires
        bytes@.len() <= MAX_WIDTH,
    ensures
        value == le_value(bytes@),
{
    let mut value: u128 = 0;
    let mut left: usize = bytes.len();
    while left > 0
        invariant
            left <= bytes@.len() <= MAX_WIDTH,
            value == le_value(bytes@.skip(left as int)),
        decreases left,
    {
        left = left - 1;
        proof {
            let tail: Seq<u8> = bytes@.skip(left as int);
            assert(tail.skip(1) =~= bytes@.skip(left + 1));
            lemma_le_value_bound(tail);
            lemma_pow256_increases(tail.len(), 16);
            lemma_pow256_widths();
        }
        value = value * 256 + bytes[left] as u128;
    }
    assert(bytes@.skip(0) =~= bytes@);
    value
}

/// Reads at most sixteen bytes as a big-endian number.
pub fn decode_be(bytes: &[u8]) -> (value: u128)
    requires
        bytes@.len() <= MAX_WIDTH,
    ensures
        value == be_value(bytes@),
{
    let little: Vec<u8> = reversed(bytes);
    decode_le(little.as_slice())
}

} // verus!
