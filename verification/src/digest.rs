//! SHA-256 digests and hexadecimal text.
//!
//! The digests are computed by `ring` and the hexadecimal text by `hex`. Verus
//! does not read those crates: what this module states of them is believed, not
//! proved.

use vstd::prelude::*;
use vstd::string::StringSliceAdditionalSpecFns;

verus! {

/// The SHA-256 digest of `data`.
pub uninterp spec fn sha256(data: Seq<u8>) -> Seq<u8>;

/// The bytes that a running digest has been given so far, in the order given.
pub uninterp spec fn hasher_input(hasher: Sha256Hasher) -> Seq<u8>;

/// The text that `hex` gives for a string of bytes that is no hexadecimal number.
pub uninterp spec fn hex_error_text(data: Seq<u8>) -> Seq<char>;

/// A running SHA-256 digest: a digest context of `ring`, opaque to the
/// verifier.
#[verifier::external_body]
pub struct Sha256Hasher {
    context: ring::digest::Context,
}

/// The number of input bytes from which on `ring` refuses to finish a digest:
/// the length in bits must fit in 64 bits.
pub open spec fn input_limit() -> nat {
    0x2000_0000_0000_0000
}

/// The lower-case hexadecimal digit for `v`, for `v` below sixteen.
pub open spec fn hex_digit(v: nat) -> char {
    if v == 0 {
        '0'
    } else if v == 1 {
        '1'
    } else if v == 2 {
        '2'
    } else if v == 3 {
        '3'
    } else if v == 4 {
        '4'
    } else if v == 5 {
        '5'
    } else if v == 6 {
        '6'
    } else if v == 7 {
        '7'
    } else if v == 8 {
        '8'
    } else if v == 9 {
        '9'
    } else if v == 10 {
        'a'
    } else if v == 11 {
        'b'
    } else if v == 12 {
        'c'
    } else if v == 13 {
        'd'
    } else if v == 14 {
        'e'
    } else {
        'f'
    }
}

/// `data` in lower-case hexadecimal: two digits for each byte, the high half
/// first.
pub open spec fn hex_encoded(data: Seq<u8>) -> Seq<char> {
    Seq::new(
        2 * data.len(),
        |i: int|
            if i % 2 == 0 {
                hex_digit((data[i / 2] / 16) as nat)
            } else {
                hex_digit((data[i / 2] % 16) as nat)
            },
    )
}

/// The value of the hexadecimal digit whose ASCII code is `c`, in either case.
pub open spec fn hex_value(c: u8) -> Option<nat> {
    if 0x30 <= c <= 0x39 {
        Some((c - 0x30) as nat)
    } else if 0x41 <= c <= 0x46 {
        Some((c - 0x41 + 10) as nat)
    } else if 0x61 <= c <= 0x66 {
        Some((c - 0x61 + 10) as nat)
    } else {
        None
    }
}

/// `text` is a hexadecimal number of whole bytes: an even number of
/// hexadecimal digits.
pub open spec fn is_hex(text: Seq<u8>) -> bool {
    text.len() % 2 == 0 && forall|i: int| 0 <= i < text.len() ==> hex_value(#[trigger] text[i]) is Some
}

/// The bytes that the hexadecimal number `text` stands for.
pub open spec fn hex_decoded(text: Seq<u8>) -> Seq<u8> {
    Seq::new(
        text.len() / 2,
        |i: int| (hex_value(text[2 * i])->0 * 16 + hex_value(text[2 * i + 1])->0) as u8,
    )
}

/// `ring::digest::Context::new` for SHA-256: a digest that has been given
/// nothing yet.
#[verifier::external_body]
pub(crate) fn sha256_hasher() -> (hasher: Sha256Hasher)
    ensures
        hasher_input(hasher) == Seq::<u8>::empty(),
{
    Sha256Hasher { context: ring::digest::Context::new(&ring::digest::SHA256) }
}

/// `ring::digest::Context::update`: the digest has then been given `data`
/// after what it had been given before.
#[verifier::external_body]
pub(crate) fn hasher_update(hasher: &mut Sha256Hasher, data: &[u8])
    ensures
        hasher_input(*final(hasher)) == hasher_input(*old(hasher)) + data@,
{
    hasher.context.update(data)
}

/// `ring::digest::Context::finish`: the 32 bytes of the SHA-256 digest of all
/// that the digest was given. `ring` panics where that is `input_limit()`
/// bytes or more.
#[verifier::external_body]
pub(crate) fn hasher_finish(hasher: Sha256Hasher) -> (digest: [u8; 32])
    requires
        hasher_input(hasher).len() < input_limit(),
    ensures
        digest@ == sha256(hasher_input(hasher)),
{
    let mut out = [0u8; 32];
    out.copy_from_slice(hasher.context.finish().as_ref());
    out
}

/// `hex::encode`: lower-case hexadecimal, two digits for each byte.
#[verifier::external_body]
pub(crate) fn hex_encode(data: &[u8]) -> (text: String)
    ensures
        text@ == hex_encoded(data@),
{
    hex::encode(data)
}

/// `hex::decode`: the bytes of a hexadecimal number, and for any other text
/// the words of the error of `hex`.
#[verifier::external_body]
pub(crate) fn hex_decode(text: &str) -> (r: Result<Vec<u8>, String>)
    ensures
        r is Ok <==> is_hex(text.spec_bytes()),
        r matches Ok(bytes) ==> bytes@ == hex_decoded(text.spec_bytes()),
        r matches Err(words) ==> words@ == hex_error_text(text.spec_bytes()),
{
    match hex::decode(text) {
        Ok(bytes) => Ok(bytes),
        Err(error) => Err(format!("{}", error)),
    }
}

} // verus!
