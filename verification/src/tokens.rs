//! Random identifiers: version-4 UUIDs in their hyphenated and simple text
//! forms, used for sign-in tokens, new user ids and share links.

use vstd::prelude::*;

verus! {

/// A lower-case hexadecimal digit.
pub open spec fn is_lower_hex(c: char) -> bool {
    ('0' <= c && c <= '9') || ('a' <= c && c <= 'f')
}

/// The variant digit of a version-4 UUID (`10xx` in binary).
pub open spec fn is_variant_digit(c: char) -> bool {
    c == '8' || c == '9' || c == 'a' || c == 'b'
}

/// Whether `i` is one of the hyphen positions of the hyphenated form.
pub open spec fn is_hyphen_pos(i: int) -> bool {
    i == 8 || i == 13 || i == 18 || i == 23
}

/// The hyphenated text of a version-4 UUID: 36 characters, hyphens at
/// positions 8, 13, 18 and 23, lower-case hex digits elsewhere, with the
/// version digit `4` at position 14 and the variant digit at position 19.
pub open spec fn hyphenated_v4(s: Seq<char>) -> bool {
    &&& s.len() == 36
    &&& forall|i: int|
        0 <= i < 36 ==> if is_hyphen_pos(i) {
            s[i] == '-'
        } else {
            is_lower_hex(#[trigger] s[i])
        }
    &&& s[14] == '4'
    &&& is_variant_digit(s[19])
}

/// The simple text of a version-4 UUID: 32 lower-case hex digits, with the
/// version digit `4` at position 12 and the variant digit at position 16.
pub open spec fn simple_v4(s: Seq<char>) -> bool {
    &&& s.len() == 32
    &&& forall|i: int| 0 <= i < 32 ==> is_lower_hex(#[trigger] s[i])
    &&& s[12] == '4'
    &&& is_variant_digit(s[16])
}

/// A fresh random UUID in hyphenated form (`Uuid::new_v4().to_string()`).
/// Which UUID comes out is left open; only its shape is stated.
#[verifier::external_body]
pub(crate) fn random_uuid() -> (r: String)
    ensures
        hyphenated_v4(r@),
{
    uuid::Uuid::new_v4().to_string()
}

/// A fresh random UUID in simple form (`Uuid::new_v4().simple().to_string()`).
/// Which UUID comes out is left open; only its shape is stated.
#[verifier::external_body]
pub(crate) fn random_uuid_simple() -> (r: String)
    ensures
        simple_v4(r@),
{
    uuid::Uuid::new_v4().simple().to_string()
}

} // verus!
