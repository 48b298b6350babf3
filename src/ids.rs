//! Identifiers: document and client identities, held as 128-bit values.

use vstd::prelude::*;

verus! {

#[verifier::external_type_specification]
#[verifier::external_body]
pub struct ExUuid(uuid::Uuid);

#[verifier::external_type_specification]
#[verifier::external_body]
pub struct ExUuidError(uuid::Error);

/// The 128-bit identifier that the text `s` denotes, if it is a valid UUID.
pub uninterp spec fn parsed_uuid(s: Seq<char>) -> Option<u128>;

/// The value of the hexadecimal digit `c`, either case.
pub open spec fn hex_digit_value(c: char) -> Option<int> {
    let n = c as int;
    if 48 <= n <= 57 {
        Some(n - 48)
    } else if 97 <= n <= 102 {
        Some(n - 87)
    } else if 65 <= n <= 70 {
        Some(n - 55)
    } else {
        None
    }
}

/// The number that the hexadecimal digits `ds` spell, most significant first.
pub open spec fn hex_value(ds: Seq<char>) -> Option<int>
    decreases ds.len(),
{
    if ds.len() == 0 {
        Some(0)
    } else {
        match (hex_value(ds.drop_last()), hex_digit_value(ds.last())) {
            (Some(v), Some(d)) => Some(v * 16 + d),
            _ => None,
        }
    }
}

/// The 32 digits of a hyphenated UUID `xxxxxxxx-xxxx-xxxx-xxxx-xxxxxxxxxxxx`.
pub open spec fn hyphenated_digits(s: Seq<char>) -> Seq<char> {
    s.subrange(0, 8) + s.subrange(9, 13) + s.subrange(14, 18) + s.subrange(19, 23) + s.subrange(
        24,
        36,
    )
}

/// `s` is a UUID in hyphenated form: 36 characters, hyphens at positions 8,
/// 13, 18 and 23, hexadecimal digits elsewhere.
pub open spec fn is_hyphenated_uuid(s: Seq<char>) -> bool {
    &&& s.len() == 36
    &&& s[8] == '-' && s[13] == '-' && s[18] == '-' && s[23] == '-'
    &&& hex_value(hyphenated_digits(s)) is Some
}

/// Relies on `uuid::Uuid::parse_str`, which accepts the simple, hyphenated,
/// braced and URN forms and rejects anything else, and on `Uuid::as_u128`,
/// which packs the parsed bytes into one integer, big-endian. A hyphenated
/// UUID parses to the number its 32 digits spell.
#[verifier::external_body]
pub(crate) fn parse_uuid(s: &str) -> (r: Result<u128, uuid::Error>)
    ensures
        r is Ok <==> parsed_uuid(s@) is Some,
        r is Ok ==> parsed_uuid(s@) == Some(r->Ok_0),
        is_hyphenated_uuid(s@) ==> r is Ok && r->Ok_0 == hex_value(hyphenated_digits(s@))->0,
{
    uuid::Uuid::parse_str(s).map(|u| u.as_u128())
}

} // verus!
