//! Random identifiers for new files.
use vstd::prelude::*;

verus! {

pub open spec fn is_lower_hex_digit(c: char) -> bool {
    ('0' <= c && c <= '9') || ('a' <= c && c <= 'f')
}

/// The hyphenated lowercase form of a UUID: 36 characters, `-` at positions
/// 8, 13, 18 and 23 and a lowercase hexadecimal digit everywhere else.
pub open spec fn is_uuid_text(s: Seq<char>) -> bool {
    &&& s.len() == 36
    &&& forall|i: int|
        0 <= i < 36 ==> if i == 8 || i == 13 || i == 18 || i == 23 {
            #[trigger] s[i] == '-'
        } else {
            is_lower_hex_digit(s[i])
        }
}

/// The text of a version-4 (random) UUID: the version digit is `4` and the
/// variant digit is `8`, `9`, `a` or `b`.
pub open spec fn is_uuid_v4_text(s: Seq<char>) -> bool {
    &&& is_uuid_text(s)
    &&& s[14] == '4'
    &&& (s[19] == '8' || s[19] == '9' || s[19] == 'a' || s[19] == 'b')
}

/// `uuid::Uuid::new_v4()` written with `to_string()`. The contract claims
/// the textual form that `Display for Uuid` (lowercase hyphenated) gives,
/// with the version and variant bits that `new_v4` sets; the other digits
/// are random, so nothing ties two calls together. The call panics if the
/// operating system's random source fails, which no precondition can
/// exclude.
#[verifier::external_body]
pub(crate) fn new_uuid_v4() -> (r: String)
    ensures
        is_uuid_v4_text(r@),
{
    uuid::Uuid::new_v4().to_string()
}

} // verus!
