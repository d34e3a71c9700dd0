//! Identifiers: 128-bit keys, drawn at random and written as canonical
//! text by the `uuid` crate.
use vstd::prelude::*;

verus! {

/// Sixteen to the power of `n`.
pub open spec fn sixteen_to(n: nat) -> int
    decreases n,
{
    if n == 0 {
        1
    } else {
        16 * sixteen_to((n - 1) as nat)
    }
}

/// The hexadecimal digit of `id` at place `place`, counted from the most
/// significant of its thirty-two digits.
pub open spec fn hex_digit(id: u128, place: int) -> char {
    "0123456789abcdef"@[(id as int / sixteen_to((31 - place) as nat)) % 16]
}

/// The canonical text of an identifier: its thirty-two lower-case
/// hexadecimal digits, most significant first, in groups of eight, four,
/// four, four and twelve that are joined by hyphens.
pub open spec fn hyphenated(id: u128) -> Seq<char> {
    Seq::new(
        36,
        |i: int|
            if i == 8 || i == 13 || i == 18 || i == 23 {
                '-'
            } else if i < 8 {
                hex_digit(id, i)
            } else if i < 13 {
                hex_digit(id, i - 1)
            } else if i < 18 {
                hex_digit(id, i - 2)
            } else if i < 23 {
                hex_digit(id, i - 3)
            } else {
                hex_digit(id, i - 4)
            },
    )
}

/// `id` has the shape of a random identifier: its version digit is four
/// and its variant digit is one of eight, nine, a and b.
pub open spec fn is_random_id(id: u128) -> bool {
    &&& (id as int / sixteen_to(19)) % 16 == 4
    &&& 8 <= (id as int / sixteen_to(15)) % 16 < 12
}

/// The canonical text of `id`.
///
/// Not proved: `Uuid::from_u128` of the `uuid` crate keeps the bytes of
/// its argument, most significant first, and the `Display` of a `Uuid`
/// writes them as lower-case hexadecimal digits in the hyphenated form.
#[verifier::external_body]
pub(crate) fn id_text(id: u128) -> (text: String)
    ensures
        text@ == hyphenated(id),
{
    uuid::Uuid::from_u128(id).to_string()
}

/// A fresh identifier.
///
/// Not proved: `Uuid::new_v4` of the `uuid` crate returns random bits of
/// which it has set the version to four and the variant to RFC 4122, and
/// `Uuid::as_u128` packs the bytes, most significant first. Nothing is
/// said of the bits that are drawn. `new_v4` panics where the operating
/// system cannot supply random bytes.
#[verifier::external_body]
pub(crate) fn fresh_id() -> (id: u128)
    ensures
        is_random_id(id),
{
    uuid::Uuid::new_v4().as_u128()
}

} // verus!
