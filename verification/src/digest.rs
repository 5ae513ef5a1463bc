//! The message digest of the signature and its hexadecimal text.
use vstd::prelude::*;
use md5::Digest;

verus! {

/// The MD5 digest of a byte string.
pub uninterp spec fn md5_digest(bytes: Seq<u8>) -> Seq<u8>;

/// The sixteen hexadecimal digits, letters in upper case.
pub open spec fn upper_digits() -> Seq<char> {
    seq!['0', '1', '2', '3', '4', '5', '6', '7', '8', '9', 'A', 'B', 'C', 'D', 'E', 'F']
}

/// The sixteen hexadecimal digits, letters in lower case.
pub open spec fn lower_digits() -> Seq<char> {
    seq!['0', '1', '2', '3', '4', '5', '6', '7', '8', '9', 'a', 'b', 'c', 'd', 'e', 'f']
}

/// The four-bit half of `bytes` that the hexadecimal digit at `i` writes:
/// the high half of a byte first, then its low half.
pub open spec fn nibble_at(bytes: Seq<u8>, i: int) -> int {
    if i % 2 == 0 {
        bytes[i / 2] as int / 16
    } else {
        bytes[i / 2] as int % 16
    }
}

/// Two digits for each byte, taken from `digits`.
pub open spec fn hex_text(bytes: Seq<u8>, digits: Seq<char>) -> Seq<char> {
    Seq::new(2 * bytes.len(), |i: int| digits[nibble_at(bytes, i)])
}

/// The hexadecimal text of `bytes` with the letters in upper case.
pub open spec fn upper_hex(bytes: Seq<u8>) -> Seq<char> {
    hex_text(bytes, upper_digits())
}

/// The hexadecimal text of `bytes` with the letters in lower case.
pub open spec fn lower_hex(bytes: Seq<u8>) -> Seq<char> {
    hex_text(bytes, lower_digits())
}

/// What ASCII upper-casing makes of a character: the letters `a` to `z`
/// become `A` to `Z`, every other character stays.
pub open spec fn ascii_upper(c: char) -> char {
    if 'a' <= c && c <= 'z' {
        ((c as u8 - 32) as u8) as char
    } else {
        c
    }
}

/// ASCII upper-casing, character by character.
pub open spec fn ascii_upper_text(s: Seq<char>) -> Seq<char> {
    s.map_values(|c: char| ascii_upper(c))
}

/// Upper-casing the lower-case hexadecimal text gives the upper-case text.
pub proof fn lemma_upper_of_lower_hex(bytes: Seq<u8>)
    ensures
        ascii_upper_text(lower_hex(bytes)) == upper_hex(bytes),
{
    let lo = lower_digits();
    let up = upper_digits();
    assert forall|n: int| 0 <= n < 16 implies ascii_upper(#[trigger] lo[n]) == up[n] by {
        assert(ascii_upper('a') == 'A');
        assert(ascii_upper('b') == 'B');
        assert(ascii_upper('c') == 'C');
        assert(ascii_upper('d') == 'D');
        assert(ascii_upper('e') == 'E');
        assert(ascii_upper('f') == 'F');
    }
    assert forall|i: int| 0 <= i < 2 * bytes.len() implies ascii_upper_text(lower_hex(bytes))[i]
        == upper_hex(bytes)[i] by {
        let n = nibble_at(bytes, i);
        assert(0 <= i / 2 < bytes.len());
        assert(0 <= n < 16);
        assert(lower_hex(bytes)[i] == lo[n]);
    }
    assert(ascii_upper_text(lower_hex(bytes)) =~= upper_hex(bytes));
}

/// `Md5::new`, `input` and `result` of md-5: the digest of `bytes`, which the
/// contract names and of which it says only that it has sixteen bytes.
#[verifier::external_body]
pub(crate) fn md5_of(bytes: &[u8]) -> (d: Vec<u8>)
    ensures
        d@ == md5_digest(bytes@),
        d@.len() == 16,
{
    let mut hasher = md5::Md5::new();
    hasher.input(bytes);
    hasher.result().to_vec()
}

/// `hex::encode`: two lower-case hexadecimal digits for each byte, the high
/// half first.
#[verifier::external_body]
pub(crate) fn hex_of(bytes: &[u8]) -> (s: String)
    ensures
        s@ == lower_hex(bytes@),
{
    hex::encode(bytes)
}

/// `str::to_ascii_uppercase`: a copy in which the ASCII letters `a` to `z`
/// are replaced by `A` to `Z`.
pub assume_specification[ str::to_ascii_uppercase ](s: &str) -> (r: String)
    ensures
        r@ == ascii_upper_text(s@),
;

/// The upper-case hexadecimal text of the MD5 digest of `message`.
pub open spec fn digest_text(message: Seq<u8>) -> Seq<char> {
    upper_hex(md5_digest(message))
}

/// Computes the upper-case hexadecimal text of the MD5 digest of `message`.
pub fn digest_hex(message: &[u8]) -> (r: String)
    ensures
        r@ == digest_text(message@),
        r@.len() == 32,
{
    let d = md5_of(message);
    let lower = hex_of(d.as_slice());
    proof {
        lemma_upper_of_lower_hex(d@);
    }
    lower.as_str().to_ascii_uppercase()
}

} // verus!
