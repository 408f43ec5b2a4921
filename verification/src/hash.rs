//! The hash by which two clips are told apart.

use vstd::prelude::*;

use crate::number::{digit, digit_char, is_hex_digit};

verus! {

/// The SHA-256 hash of `data`.
pub uninterp spec fn sha256(data: Seq<u8>) -> Seq<u8>;

/// `bytes` in base 16: two digits for each byte, the high one first.
pub open spec fn hex(bytes: Seq<u8>) -> Seq<char> {
    Seq::new(
        2 * bytes.len(),
        |i: int|
            if i % 2 == 0 {
                digit(bytes[i / 2] as int / 16)
            } else {
                digit(bytes[i / 2] as int % 16)
            },
    )
}

/// `sha2::Sha256` over `data` gives 32 bytes, which depend on `data` alone.
#[verifier::external_body]
fn sha256_of(data: &[u8]) -> (hash: Vec<u8>)
    ensures
        hash@ == sha256(data@),
        hash@.len() == 32,
{
    <sha2::Sha256 as sha2::Digest>::digest(data).to_vec()
}

/// `bytes` in base 16.
pub fn hex_text(bytes: &[u8]) -> (text: String)
    ensures
        text@ == hex(bytes@),
        forall|i: int| 0 <= i < text@.len() ==> is_hex_digit(#[trigger] text@[i]),
{
    let mut text = String::new();
    for i in 0..bytes.len()
        invariant
            text@ =~= hex(bytes@).take(2 * i),
            forall|j: int| 0 <= j < text@.len() ==> is_hex_digit(#[trigger] text@[j]),
    {
        text.push(digit_char(bytes[i] / 16));
        text.push(digit_char(bytes[i] % 16));
    }
    assert(hex(bytes@).take(2 * bytes@.len() as int) =~= hex(bytes@));
    text
}

/// The SHA-256 hash of `data`, in base 16: 64 digits.
pub fn hash_bytes(data: &[u8]) -> (text: String)
    ensures
        text@ == hex(sha256(data@)),
        text@.len() == 64,
        forall|i: int| 0 <= i < text@.len() ==> is_hex_digit(#[trigger] text@[i]),
{
    let hash = sha256_of(data);
    hex_text(hash.as_slice())
}

/// Each byte more is written as two digits more: the high one first.
pub proof fn law_each_byte_is_two_digits(bytes: Seq<u8>, byte: u8)
    ensures
        hex(Seq::empty()).len() == 0,
        hex(bytes.push(byte)) == hex(bytes).push(digit(byte as int / 16)).push(
            digit(byte as int % 16),
        ),
{
    assert(hex(bytes.push(byte)) =~= hex(bytes).push(digit(byte as int / 16)).push(
        digit(byte as int % 16),
    ));
}

/// Different bytes are never written in the same way.
pub proof fn law_different_bytes_look_different(a: Seq<u8>, b: Seq<u8>)
    requires
        hex(a) == hex(b),
    ensures
        a == b,
{
    assert(hex(a).len() == 2 * a.len() && hex(b).len() == 2 * b.len());
    assert forall|i: int| 0 <= i < a.len() implies a[i] == b[i] by {
        assert(hex(a)[2 * i] == digit(a[i] as int / 16));
        assert(hex(b)[2 * i] == digit(b[i] as int / 16));
        assert(hex(a)[2 * i + 1] == digit(a[i] as int % 16));
        assert(hex(b)[2 * i + 1] == digit(b[i] as int % 16));
        crate::number::law_digits_follow_each_other(a[i] as int / 16);
        crate::number::law_digits_follow_each_other(b[i] as int / 16);
        crate::number::law_digits_follow_each_other(a[i] as int % 16);
        crate::number::law_digits_follow_each_other(b[i] as int % 16);
    }
    assert(a =~= b);
}

} // verus!
