//! Fresh identifiers for guilds, channels and invites.

use vstd::prelude::*;

verus! {

/// Whether the character is a lower-case hexadecimal digit.
pub open spec fn is_lower_hex(c: char) -> bool {
    ('0' <= c && c <= '9') || ('a' <= c && c <= 'f')
}

/// Whether the text is a version 4 UUID in its hyphenated lower-case form:
/// 36 characters, a hyphen after the 8th, 12th, 16th and 20th digit, and the
/// version digit `4`.
pub open spec fn is_uuid_text(text: Seq<char>) -> bool {
    &&& text.len() == 36
    &&& forall|i: int|
        0 <= i < 36 ==> if i == 8 || i == 13 || i == 18 || i == 23 {
            #[trigger] text[i] == '-'
        } else {
            is_lower_hex(text[i])
        }
    &&& text[14] == '4'
}

/// A fresh random identifier.
///
/// Calls `uuid::Uuid::new_v4` and renders the result with its `Display`
/// impl. The contract claims only the shape of the text: the hyphenated
/// lower-case form with the version digit that `new_v4` sets. Nothing is
/// claimed about which identifier comes back; two calls may differ.
#[verifier::external_body]
pub(crate) fn fresh_id() -> (id: String)
    ensures
        is_uuid_text(id@),
{
    uuid::Uuid::new_v4().to_string()
}

} // verus!
