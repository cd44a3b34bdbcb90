//! Session identities: random version-4 UUIDs in their hyphenated text form.
use vstd::prelude::*;

verus! {

/// Number of characters in a session identity (`8-4-4-4-12` hex digits and hyphens).
pub const IDENTITY_LEN: usize = 36;

/// Whether `s` is the hyphenated text of a UUID: 36 characters, hyphens at
/// positions 8, 13, 18 and 23, lower-case hex digits everywhere else.
pub open spec fn is_identity_text(s: Seq<char>) -> bool {
    &&& s.len() == IDENTITY_LEN
    &&& forall|i: int|
        0 <= i < s.len() ==> if i == 8 || i == 13 || i == 18 || i == 23 {
            #[trigger] s[i] == '-'
        } else {
            ('0' <= s[i] <= '9') || ('a' <= s[i] <= 'f')
        }
}

/// Relies on `uuid::Uuid::new_v4` and on the `Display` impl of `uuid::Uuid`,
/// which writes the hyphenated form: 32 lower-case hex digits and 4 hyphens.
/// The value is random, so nothing is stated of it beyond that form.
#[verifier::external_body]
pub(crate) fn random_identity() -> (r: String)
    ensures
        is_identity_text(r@),
{
    uuid::Uuid::new_v4().to_string()
}

} // verus!
