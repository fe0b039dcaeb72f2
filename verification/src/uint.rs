//! 256-bit unsigned integers as carried in event data: 32-byte big-endian
//! words, read as `u64` or written as decimal text.
use vstd::prelude::*;

verus! {

/// The number a big-endian byte string denotes.
pub open spec fn be_value(s: Seq<u8>) -> nat
    decreases s.len(),
{
    if s.len() == 0 {
        0
    } else {
        be_value(s.drop_last()) * 256 + s.last() as nat
    }
}

/// The character of a decimal digit in `0..10`.
pub open spec fn decimal_digit(n: int) -> char {
    if n == 0 { '0' } else if n == 1 { '1' } else if n == 2 { '2' } else if n == 3 { '3' }
    else if n == 4 { '4' } else if n == 5 { '5' } else if n == 6 { '6' } else if n == 7 { '7' }
    else if n == 8 { '8' } else { '9' }
}

/// Decimal text of a natural number, most significant digit first, without
/// leading zeros (`0` is written `"0"`).
pub open spec fn decimal(n: nat) -> Seq<char>
    decreases n,
{
    if n < 10 {
        seq![decimal_digit(n as int)]
    } else {
        decimal(n / 10) + seq![decimal_digit((n % 10) as int)]
    }
}

/// `substreams::scalar::BigInt::from_unsigned_bytes_be` followed by
/// `to_string`. The source builds a non-negative `num_bigint::BigInt` from
/// the big-endian bytes and prints it in base ten through `Display`, which
/// writes no sign, no leading zeros and `0` for zero.
#[verifier::external_body]
pub(crate) fn uint_decimal(word: &[u8]) -> (r: String)
    ensures
        r@ == decimal(be_value(word@)),
{
    substreams::scalar::BigInt::from_unsigned_bytes_be(word).to_string()
}

/// `substreams::scalar::BigInt::from_unsigned_bytes_be` followed by
/// `to_u64`. The source panics when the value does not fit in a `u64`; such
/// words are excluded by the precondition.
#[verifier::external_body]
pub(crate) fn uint_to_u64(word: &[u8]) -> (r: u64)
    requires
        be_value(word@) <= u64::MAX,
    ensures
        r == be_value(word@),
{
    substreams::scalar::BigInt::from_unsigned_bytes_be(word).to_u64()
}

/// Decimal text of an unsigned big-endian word.
pub fn word_decimal(word: &Vec<u8>) -> (r: String)
    ensures
        r@ == decimal(be_value(word@)),
{
    uint_decimal(word.as_slice())
}

} // verus!
