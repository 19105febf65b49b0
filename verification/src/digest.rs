//! Content digests.
use crate::text::slice;
use crate::text::to_chars;
use vstd::prelude::*;
use vstd::string::*;
use vstd::utf8::*;

verus! {

/// Whether `c` is a lower-case hexadecimal digit.
pub open spec fn is_hex_digit(c: char) -> bool {
    '0' <= c <= '9' || 'a' <= c <= 'f'
}

/// The BLAKE3 hash of some bytes, in hexadecimal notation.
pub uninterp spec fn blake3_hex(bytes: Seq<u8>) -> Seq<char>;

/// `blake3::hash` and `Hash::to_hex`: the hash in 64 lower-case hexadecimal digits.
#[verifier::external_body]
pub(crate) fn hash_hex(bytes: &[u8]) -> (r: String)
    ensures
        r@ == blake3_hex(bytes@),
        r@.len() == 64,
        forall|i: int| 0 <= i < 64 ==> is_hex_digit(#[trigger] r@[i]),
{
    blake3::hash(bytes).to_hex().to_string()
}

/// The first `count` hexadecimal digits of the BLAKE3 hash of a text's bytes.
pub open spec fn digest_of(text: Seq<char>, count: int) -> Seq<char> {
    Seq::new(count as nat, |i: int| blake3_hex(encode_utf8(text))[i])
}

/// The first `count` hexadecimal digits of the BLAKE3 hash of a text.
pub fn digest(text: &str, count: usize) -> (r: String)
    requires
        count <= 64,
    ensures
        r@ == digest_of(text@, count as int),
        r@.len() == count,
        forall|i: int| 0 <= i < count ==> is_hex_digit(#[trigger] r@[i]),
{
    let hex = hash_hex(text.as_bytes());
    let chars = to_chars(hex.as_str());
    let r = slice(&chars, 0, count);
    assert(r@ =~= digest_of(text@, count as int));
    r
}

/// The BLAKE3 hash of some bytes, in 64 hexadecimal digits.
pub fn digest_bytes(bytes: &Vec<u8>) -> (r: String)
    ensures
        r@ == blake3_hex(bytes@),
        r@.len() == 64,
        forall|i: int| 0 <= i < 64 ==> is_hex_digit(#[trigger] r@[i]),
{
    hash_hex(bytes.as_slice())
}

} // verus!
