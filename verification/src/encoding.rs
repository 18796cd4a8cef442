//! Lowercase hexadecimal rendering of digests.

use vstd::prelude::*;

verus! {

/// The lowercase hexadecimal digit for a value below sixteen.
pub open spec fn hex_digit(n: u8) -> char
    recommends
        n < 16,
{
    if n == 0 {
        '0'
    } else if n == 1 {
        '1'
    } else if n == 2 {
        '2'
    } else if n == 3 {
        '3'
    } else if n == 4 {
        '4'
    } else if n == 5 {
        '5'
    } else if n == 6 {
        '6'
    } else if n == 7 {
        '7'
    } else if n == 8 {
        '8'
    } else if n == 9 {
        '9'
    } else if n == 10 {
        'a'
    } else if n == 11 {
        'b'
    } else if n == 12 {
        'c'
    } else if n == 13 {
        'd'
    } else if n == 14 {
        'e'
    } else {
        'f'
    }
}

/// The lowercase hexadecimal rendering of a byte sequence: two digits per
/// byte, most significant nibble first.
pub open spec fn hex_of(bytes: Seq<u8>) -> Seq<char>
    decreases bytes.len(),
{
    if bytes.len() == 0 {
        Seq::<char>::empty()
    } else {
        seq![hex_digit(bytes[0] / 16), hex_digit(bytes[0] % 16)] + hex_of(bytes.drop_first())
    }
}

/// Whether a character is one of the sixteen lowercase hexadecimal digits.
pub open spec fn is_lower_hex_digit(c: char) -> bool {
    ('0' <= c && c <= '9') || ('a' <= c && c <= 'f')
}

/// Relies on hex::encode: each input byte becomes two digits drawn from
/// "0123456789abcdef", most significant nibble first.
#[verifier::external_body]
pub(crate) fn hex_encode(bytes: &[u8]) -> (r: String)
    ensures
        r@ == hex_of(bytes@),
{
    hex::encode(bytes)
}

/// The hexadecimal rendering has exactly two characters per byte.
pub proof fn lemma_hex_of_len(bytes: Seq<u8>)
    ensures
        hex_of(bytes).len() == 2 * bytes.len(),
    decreases bytes.len(),
{
    if bytes.len() > 0 {
        lemma_hex_of_len(bytes.drop_first());
    }
}

/// Every character of the hexadecimal rendering is a lowercase hex digit.
pub proof fn lemma_hex_of_digits(bytes: Seq<u8>)
    ensures
        forall|i: int|
            0 <= i < hex_of(bytes).len() ==> is_lower_hex_digit(#[trigger] hex_of(bytes)[i]),
    decreases bytes.len(),
{
    if bytes.len() > 0 {
        lemma_hex_of_digits(bytes.drop_first());
        let rest = hex_of(bytes.drop_first());
        let head = seq![hex_digit(bytes[0] / 16), hex_digit(bytes[0] % 16)];
        assert(hex_of(bytes) == head + rest);
        assert forall|i: int| 0 <= i < hex_of(bytes).len() implies is_lower_hex_digit(
            #[trigger] hex_of(bytes)[i],
        ) by {
            if i >= 2 {
                assert(hex_of(bytes)[i] == rest[i - 2]);
            }
        }
    }
}

/// A 32-byte digest always renders as exactly 64 characters, each of them a
/// lowercase hexadecimal digit, whatever the digested input was.
pub proof fn lemma_digest_renders_as_64_hex(digest: Seq<u8>)
    requires
        digest.len() == 32,
    ensures
        hex_of(digest).len() == 64,
        forall|i: int| 0 <= i < 64 ==> is_lower_hex_digit(#[trigger] hex_of(digest)[i]),
{
    lemma_hex_of_len(digest);
    lemma_hex_of_digits(digest);
}

} // verus!
