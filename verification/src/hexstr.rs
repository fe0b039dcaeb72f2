//! Lowercase hexadecimal text of byte strings, as used for store keys,
//! transaction hashes and addresses.
use vstd::prelude::*;

verus! {

/// The lowercase character of a hexadecimal digit in `0..16`.
pub open spec fn hex_digit(n: int) -> char {
    if n == 0 { '0' } else if n == 1 { '1' } else if n == 2 { '2' } else if n == 3 { '3' }
    else if n == 4 { '4' } else if n == 5 { '5' } else if n == 6 { '6' } else if n == 7 { '7' }
    else if n == 8 { '8' } else if n == 9 { '9' } else if n == 10 { 'a' } else if n == 11 { 'b' }
    else if n == 12 { 'c' } else if n == 13 { 'd' } else if n == 14 { 'e' } else { 'f' }
}

/// Lowercase hexadecimal text of a byte string: two digits per byte, high
/// nibble first, no prefix.
pub open spec fn hex_lower(s: Seq<u8>) -> Seq<char>
    decreases s.len(),
{
    if s.len() == 0 {
        Seq::empty()
    } else {
        hex_lower(s.drop_last()) + seq![
            hex_digit(s.last() as int / 16),
            hex_digit(s.last() as int % 16),
        ]
    }
}

/// The same text with the `0x` prefix.
pub open spec fn prefixed_hex_lower(s: Seq<u8>) -> Seq<char> {
    seq!['0', 'x'] + hex_lower(s)
}

/// Every byte gives exactly two characters.
pub proof fn lemma_hex_lower_len(s: Seq<u8>)
    ensures
        hex_lower(s).len() == 2 * s.len(),
    decreases s.len(),
{
    if s.len() > 0 {
        lemma_hex_lower_len(s.drop_last());
    }
}

/// A lowercase hexadecimal digit: `0`-`9` or `a`-`f`.
pub open spec fn is_lower_hex_digit(c: char) -> bool {
    ('0' <= c && c <= '9') || ('a' <= c && c <= 'f')
}

/// Hexadecimal text holds lowercase hexadecimal digits only.
pub proof fn lemma_hex_lower_digits(s: Seq<u8>)
    ensures
        forall|i: int| 0 <= i < hex_lower(s).len() ==> is_lower_hex_digit(#[trigger] hex_lower(s)[i]),
    decreases s.len(),
{
    if s.len() > 0 {
        lemma_hex_lower_digits(s.drop_last());
        let p = hex_lower(s.drop_last());
        let x = s.last() as int;
        assert(is_lower_hex_digit(hex_digit(x / 16)));
        assert(is_lower_hex_digit(hex_digit(x % 16)));
        assert forall|i: int| 0 <= i < hex_lower(s).len() implies is_lower_hex_digit(
            #[trigger] hex_lower(s)[i],
        ) by {
            if i < p.len() {
                assert(hex_lower(s)[i] == p[i]);
            }
        }
    }
}

proof fn lemma_hex_digit_injective(a: int, b: int)
    requires
        0 <= a < 16,
        0 <= b < 16,
        hex_digit(a) == hex_digit(b),
    ensures
        a == b,
{
}

/// Hexadecimal text is injective: two byte strings with the same text are
/// equal. So keys made from distinct addresses never collide.
pub proof fn lemma_hex_lower_injective(a: Seq<u8>, b: Seq<u8>)
    requires
        hex_lower(a) == hex_lower(b),
    ensures
        a == b,
    decreases a.len(),
{
    lemma_hex_lower_len(a);
    lemma_hex_lower_len(b);
    if a.len() > 0 {
        let ha = hex_lower(a);
        let n = ha.len() as int;
        lemma_hex_lower_len(a.drop_last());
        lemma_hex_lower_len(b.drop_last());
        assert(ha.subrange(0, n - 2) =~= hex_lower(a.drop_last()));
        assert(hex_lower(b).subrange(0, n - 2) =~= hex_lower(b.drop_last()));
        lemma_hex_lower_injective(a.drop_last(), b.drop_last());
        let x = a.last() as int;
        let y = b.last() as int;
        assert(ha[n - 2] == hex_digit(x / 16));
        assert(hex_lower(b)[n - 2] == hex_digit(y / 16));
        assert(ha[n - 1] == hex_digit(x % 16));
        assert(hex_lower(b)[n - 1] == hex_digit(y % 16));
        lemma_hex_digit_injective(x / 16, y / 16);
        lemma_hex_digit_injective(x % 16, y % 16);
        assert(x == 16 * (x / 16) + x % 16);
        assert(y == 16 * (y / 16) + y % 16);
        assert(a =~= a.drop_last().push(a.last()));
        assert(b =~= b.drop_last().push(b.last()));
    }
}

/// `substreams::Hex::encode`. The crate's source writes each byte as two
/// lowercase hexadecimal digits (a table lookup) and nothing else; an empty
/// input gives the empty string.
#[verifier::external_body]
pub(crate) fn substreams_hex(bytes: &[u8]) -> (r: String)
    ensures
        r@ == hex_lower(bytes@),
{
    substreams::Hex::encode(bytes)
}

/// `hex::encode`. The crate's source writes each byte as two lowercase
/// hexadecimal digits, high nibble first.
#[verifier::external_body]
pub(crate) fn hex_encode(bytes: &[u8]) -> (r: String)
    ensures
        r@ == hex_lower(bytes@),
{
    hex::encode(bytes)
}

/// The store key of an address: its lowercase hexadecimal text.
pub fn pool_key(address: &[u8]) -> (r: String)
    ensures
        r@ == hex_lower(address@),
{
    substreams_hex(address)
}

/// Lowercase hexadecimal text with the `0x` prefix.
pub fn prefixed_hex(bytes: &[u8]) -> (r: String)
    ensures
        r@ == prefixed_hex_lower(bytes@),
{
    let mut s = String::from_str("0x");
    let h = hex_encode(bytes);
    s.append(h.as_str());
    proof {
        reveal_strlit("0x");
    }
    s
}

/// `0x` followed by an already encoded text.
pub fn prefixed(text: &String) -> (r: String)
    ensures
        r@ == seq!['0', 'x'] + text@,
{
    let mut s = String::from_str("0x");
    s.append(text.as_str());
    proof {
        reveal_strlit("0x");
    }
    s
}

} // verus!
