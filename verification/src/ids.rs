//! Identifiers: UUIDs, held as the 128-bit numbers that they are.

use vstd::prelude::*;

verus! {

/// What `uuid::Uuid::parse_str` makes of a text.
pub uninterp spec fn uuid_parsed(text: Seq<char>) -> Option<u128>;

/// The name-based (version 5) UUID of a text in the URL namespace.
pub uninterp spec fn uuid_hashed(text: Seq<char>) -> u128;

/// A lower-case hexadecimal digit.
pub open spec fn hex_char(d: nat) -> char {
    if d < 10 {
        ('0' as nat + d) as char
    } else {
        ('a' as nat + d - 10) as char
    }
}

/// The last `len` hexadecimal digits of a number.
pub open spec fn hex(n: nat, len: nat) -> Seq<char>
    decreases len,
{
    if len == 0 {
        Seq::empty()
    } else {
        hex(n / 16, (len - 1) as nat).push(hex_char(n % 16))
    }
}

/// An identifier as 32 hexadecimal digits.
pub open spec fn simple(id: u128) -> Seq<char> {
    hex(id as nat, 32)
}

/// An identifier in groups of 8, 4, 4, 4 and 12 hexadecimal digits.
pub open spec fn hyphenated(id: u128) -> Seq<char> {
    let s = simple(id);
    s.subrange(0, 8) + "-"@ + s.subrange(8, 12) + "-"@ + s.subrange(12, 16) + "-"@ + s.subrange(
        16,
        20,
    ) + "-"@ + s.subrange(20, 32)
}

/// The version and variant digits of a random identifier.
pub open spec fn is_random(id: u128) -> bool {
    &&& (id / 0x1000_0000_0000_0000_0000) % 16 == 4
    &&& (id / 0x4000_0000_0000_0000) % 4 == 2
}

/// `uuid::Uuid::new_v4`: a random identifier. Which one rests on chance; its
/// version and variant digits do not.
#[verifier::external_body]
pub(crate) fn new_id() -> (r: u128)
    ensures
        is_random(r),
{
    uuid::Uuid::new_v4().as_u128()
}

/// `uuid::Uuid::parse_str`.
#[verifier::external_body]
pub(crate) fn parse_id(s: &str) -> (r: Option<u128>)
    ensures
        r == uuid_parsed(s@),
{
    uuid::Uuid::parse_str(s).ok().map(|u| u.as_u128())
}

/// `uuid::Uuid::new_v5` in `uuid::Uuid::NAMESPACE_URL`, on the UTF-8 bytes of a text.
#[verifier::external_body]
pub(crate) fn hashed_id(s: &str) -> (r: u128)
    ensures
        r == uuid_hashed(s@),
{
    uuid::Uuid::new_v5(&uuid::Uuid::NAMESPACE_URL, s.as_bytes()).as_u128()
}

/// `uuid::Uuid::to_string`: the hyphenated form, which `parse_str` reads back.
#[verifier::external_body]
pub(crate) fn id_text(id: u128) -> (r: String)
    ensures
        r@ == hyphenated(id),
        uuid_parsed(r@) == Some(id),
{
    uuid::Uuid::from_u128(id).to_string()
}

/// `uuid::fmt::Simple::to_string`: the 32 digits, which `parse_str` reads back.
#[verifier::external_body]
pub(crate) fn simple_text(id: u128) -> (r: String)
    ensures
        r@ == simple(id),
        uuid_parsed(r@) == Some(id),
{
    uuid::Uuid::from_u128(id).simple().to_string()
}

/// The text of an identifier.
pub fn format(id: u128) -> (r: String)
    ensures
        r@ == hyphenated(id),
        uuid_parsed(r@) == Some(id),
{
    id_text(id)
}

/// Reads an identifier.
pub fn parse(s: &str) -> (r: Option<u128>)
    ensures
        r == uuid_parsed(s@),
{
    parse_id(s)
}

} // verus!
