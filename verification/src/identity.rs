//! Fresh identities for records that come without one.

use vstd::prelude::*;

verus! {

/// Whether `c` is a digit of lower-case hexadecimal notation.
pub open spec fn is_lower_hex(c: char) -> bool {
    ('0' <= c && c <= '9') || ('a' <= c && c <= 'f')
}

/// Whether `text` is the hyphenated lower-case form of a random (version 4)
/// UUID: 36 characters in groups of 8, 4, 4, 4 and 12 hexadecimal digits
/// with a hyphen between them, the third group starting with the version
/// digit and the fourth with one of the variant's four digits.
pub open spec fn is_random_uuid(text: Seq<char>) -> bool {
    &&& text.len() == 36
    &&& forall|i: int|
        0 <= i < 36 ==> if i == 8 || i == 13 || i == 18 || i == 23 {
            text[i] == '-'
        } else {
            is_lower_hex(#[trigger] text[i])
        }
    &&& text[14] == '4'
    &&& (text[19] == '8' || text[19] == '9' || text[19] == 'a' || text[19] == 'b')
}

/// Draws a random UUID with `uuid::Uuid::new_v4` and writes it out with its
/// `to_string`.
///
/// The contract claims the shape of the text and nothing about which UUID
/// was drawn: two calls may give the same one. `new_v4` stops the program
/// where the operating system has no random bytes to give.
#[verifier::external_body]
pub(crate) fn fresh_id() -> (id: String)
    ensures
        is_random_uuid(id@),
{
    uuid::Uuid::new_v4().to_string()
}

} // verus!
