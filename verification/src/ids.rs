//! Identifiers of objects and traits: 128-bit UUIDs held as plain integers.

use vstd::prelude::*;

verus! {

/// Identifier of an object (the 128-bit value of a UUID, most significant byte first).
pub type ObjectId = u128;

/// Identifier of a trait value (the 128-bit value of a UUID).
pub type TraitId = u128;

/// Bits that fix the version and the variant of a random (version 4) UUID.
pub open spec fn v4_mask() -> u128 {
    0xF000_C000_0000_0000_0000u128
}

/// What the bits under `v4_mask` hold in every version 4 UUID: version 4, RFC 4122 variant.
pub open spec fn v4_bits() -> u128 {
    0x4000_8000_0000_0000_0000u128
}

/// A fresh random identifier.
///
/// Calls `uuid::Uuid::new_v4` and returns its 128-bit value. Which value comes out is
/// chance; what holds of every outcome is that the version nibble is 4 and the variant
/// bits are those of RFC 4122, as `new_v4` masks them in.
#[verifier::external_body]
pub fn fresh_id() -> (id: u128)
    ensures
        id & v4_mask() == v4_bits(),
{
    uuid::Uuid::new_v4().as_u128()
}


/// The lowercase hexadecimal digit for `n` (below 16).
pub open spec fn hex_digit(n: u128) -> char {
    if n < 10 {
        (48 + n) as char
    } else {
        (87 + n) as char
    }
}

/// The lowest `count` hexadecimal digits of `id`, most significant first.
pub open spec fn hex_digits(id: u128, count: nat) -> Seq<char>
    decreases count,
{
    if count == 0 {
        Seq::empty()
    } else {
        hex_digits(id >> 4u128, (count - 1) as nat).push(hex_digit(id & 15u128))
    }
}

/// The hyphenated lowercase text of a UUID: 32 hexadecimal digits in groups of
/// 8, 4, 4, 4 and 12, separated by hyphens.
pub open spec fn hyphenated(id: u128) -> Seq<char> {
    let d = hex_digits(id, 32);
    d.subrange(0, 8) + seq!['-'] + d.subrange(8, 12) + seq!['-'] + d.subrange(12, 16) + seq!['-']
        + d.subrange(16, 20) + seq!['-'] + d.subrange(20, 32)
}

/// What `uuid::Uuid::try_parse` makes of a text: the 128-bit value of the UUID it
/// reads, or `None` where it refuses the text.
pub uninterp spec fn uuid_parse(text: Seq<char>) -> Option<u128>;

/// The text of an identifier, as `uuid::Uuid`'s `Display` writes it.
///
/// Calls `uuid::Uuid::from_u128(id).to_string()`, which writes the hyphenated lowercase
/// form; `uuid::Uuid::try_parse` reads that form back to the same UUID.
#[verifier::external_body]
pub fn id_text(id: u128) -> (s: String)
    ensures
        s@ == hyphenated(id),
        uuid_parse(s@) == Some(id),
{
    uuid::Uuid::from_u128(id).to_string()
}

/// Reads an identifier from text with `uuid::Uuid::try_parse`, which accepts the
/// simple, hyphenated, braced and URN forms.
#[verifier::external_body]
pub fn parse_id(text: &str) -> (r: Option<u128>)
    ensures
        r == uuid_parse(text@),
{
    match uuid::Uuid::try_parse(text) {
        Ok(u) => Some(u.as_u128()),
        Err(_) => None,
    }
}

} // verus!
